//! The fields of a JSON object.
use vstd::prelude::*;

use crate::json::Json;
use crate::time::{rfc3339_text, Timestamp};
use crate::usage::TokenUsage;

verus! {

/// The value of the field, if there is one.
pub open spec fn field(object: Map<Seq<char>, Json>, key: Seq<char>) -> Option<Json> {
    if object.contains_key(key) {
        Some(object[key])
    } else {
        None
    }
}

/// The length of a name and some of its letters, which are enough to tell the
/// names of fields apart.
pub open spec fn fingerprint(name: Seq<char>) -> (nat, char, char, char, char) {
    (name.len(), name[0], name[1], name[2], name[name.len() - 1])
}

/// Whether the field is there and holds this text.
pub open spec fn has_text(object: Map<Seq<char>, Json>, name: Seq<char>, text: Seq<char>) -> bool {
    object.contains_key(name) && object[name] == Json::Text(text)
}

/// Whether the field holds the value, and is missing where there is none.
pub open spec fn has_value(
    object: Map<Seq<char>, Json>,
    name: Seq<char>,
    value: Option<Json>,
) -> bool {
    match value {
        Some(value) => object.contains_key(name) && object[name] == value,
        None => !object.contains_key(name),
    }
}

/// Whether the field holds the text, and is missing where there is none.
pub open spec fn has_optional_text(
    object: Map<Seq<char>, Json>,
    name: Seq<char>,
    text: Option<Seq<char>>,
) -> bool {
    match text {
        Some(text) => has_text(object, name, text),
        None => !object.contains_key(name),
    }
}

/// Whether the field holds the count, and is missing where it is not known.
pub open spec fn has_count(
    object: Map<Seq<char>, Json>,
    name: Seq<char>,
    count: Option<u64>,
) -> bool {
    match count {
        Some(count) => object.contains_key(name) && object[name] == Json::Unsigned(count),
        None => !object.contains_key(name),
    }
}

/// Whether the field holds the instant as a text, and is missing where there is
/// none.
pub open spec fn has_instant(
    object: Map<Seq<char>, Json>,
    name: Seq<char>,
    at: Option<Timestamp>,
) -> bool {
    match at {
        Some(at) => has_text(object, name, rfc3339_text(at.secs, at.nanos)),
        None => !object.contains_key(name),
    }
}

/// Whether the object says how many tokens were used: each count that is known,
/// and as the total the one that is reported, or else all counts added up,
/// unless they come to nothing.
pub open spec fn tells_tokens(object: Map<Seq<char>, Json>, tokens: TokenUsage) -> bool {
    &&& has_count(object, "tokens_input"@, tokens.input)
    &&& has_count(object, "tokens_output"@, tokens.output)
    &&& has_count(object, "tokens_cache_read"@, tokens.cache_read)
    &&& has_count(object, "tokens_cache_write"@, tokens.cache_write)
    &&& exists|total: Option<u64>| #[trigger]
        is_total(total, tokens) && has_count(object, "tokens_total"@, total)
}

/// The count, or nothing where it is not known.
pub open spec fn known(count: Option<u64>) -> int {
    if count is Some {
        count->0 as int
    } else {
        0
    }
}

/// Whether this is the total of the tokens: the one that is reported, or else
/// the four counts added up as far as a number goes, unless they come to
/// nothing.
pub open spec fn is_total(total: Option<u64>, tokens: TokenUsage) -> bool {
    let sum = known(tokens.input) + known(tokens.output) + known(tokens.cache_read) + known(
        tokens.cache_write,
    );
    if tokens.total is Some {
        total == tokens.total
    } else if sum == 0 {
        total is None
    } else {
        total is Some && total->0 == if sum <= u64::MAX {
            sum
        } else {
            u64::MAX as int
        }
    }
}

} // verus!

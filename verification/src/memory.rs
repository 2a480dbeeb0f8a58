//! Queries of the assistant's memory: the encrypted chat history, cached
//! values and long-term facts.
use vstd::prelude::*;
use crate::text::{chars_of, concat_str, string_of};

verus! {

/// How many recent messages of a session are given to the model.
pub const HISTORY_LIMIT: usize = 10;

/// The query listing long-term facts, newest first, of one category or of all.
pub open spec fn long_term_query_text(category: Option<Seq<char>>) -> Seq<char> {
    match category {
        Some(_) => "SELECT fact FROM memory_long_term WHERE category = ?1 ORDER BY id DESC"@,
        None => "SELECT fact FROM memory_long_term ORDER BY id DESC"@,
    }
}

/// The query and its parameters for a search of long-term facts.
pub fn long_term_query(category: Option<&str>) -> (res: (String, Vec<String>))
    ensures
        res.0@ == long_term_query_text(
            match category {
                Some(c) => Some(c@),
                None => None,
            },
        ),
        match category {
            Some(c) => res.1@.len() == 1 && res.1@[0]@ == c@,
            None => res.1@.len() == 0,
        },
{
    let mut query = chars_of("SELECT fact FROM memory_long_term");
    let mut params: Vec<String> = Vec::new();
    if let Some(cat) = category {
        query = concat_str(&query, " WHERE category = ?1");
        params.push(cat.to_string());
    }
    query = concat_str(&query, " ORDER BY id DESC");
    proof {
        reveal_strlit("SELECT fact FROM memory_long_term");
        reveal_strlit(" WHERE category = ?1");
        reveal_strlit(" ORDER BY id DESC");
        reveal_strlit("SELECT fact FROM memory_long_term WHERE category = ?1 ORDER BY id DESC");
        reveal_strlit("SELECT fact FROM memory_long_term ORDER BY id DESC");
    }
    (string_of(&query), params)
}

} // verus!

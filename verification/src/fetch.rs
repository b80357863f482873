use vstd::prelude::*;

use crate::errors::CfhdbError;

verus! {

/// Chooses the catalog text under the fetch-with-cache-fallback rule.
///
/// A successfully fetched body always wins and is to be persisted (the
/// second component is `true` exactly then); with no fetched body the cache
/// contents are used as they are; with neither the fetch is unavailable and
/// the caller must treat the operation as fatal.
pub fn resolve_catalog_source(fetched: Option<String>, cached: Option<String>) -> (r: Result<
    (String, bool),
    CfhdbError,
>)
    ensures
        match fetched {
            Some(body) => r matches Ok(x) && x.0 == body && x.1 == true,
            None => match cached {
                Some(c) => r matches Ok(x) && x.0 == c && x.1 == false,
                None => r == Err::<(String, bool), CfhdbError>(CfhdbError::FetchUnavailable),
            },
        },
{
    match fetched {
        Some(body) => Ok((body, true)),
        None => match cached {
            Some(c) => Ok((c, false)),
            None => Err(CfhdbError::FetchUnavailable),
        },
    }
}

} // verus!

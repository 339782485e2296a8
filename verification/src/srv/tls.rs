//! The two files that the server needs to speak TLS.

use vstd::prelude::*;

verus! {

/// A certificate file and the key file that belongs to it.
#[derive(Debug)]
pub struct CertKey {
    pub cert: String,
    pub key: String,
}

impl CertKey {
    /// The pair of files, where both have been given; one without the other is
    /// of no use and is left aside.
    pub fn try_from(pair: (Option<String>, Option<String>)) -> (r: Result<CertKey, ()>)
        ensures
            r.is_ok() <==> pair.0.is_some() && pair.1.is_some(),
            r.is_ok() ==> r.unwrap().cert@ == pair.0.unwrap()@ && r.unwrap().key@ == pair.1.unwrap()@,
    {
        match pair {
            (Some(cert), Some(key)) => Ok(CertKey { cert, key }),
            (Some(_), None) => Err(()),
            (None, Some(_)) => Err(()),
            (None, None) => Err(()),
        }
    }
}

} // verus!

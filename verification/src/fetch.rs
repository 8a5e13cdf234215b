//! The answer of the external batch loader, as plain values: each fetched
//! path together with the bytes read from it or the failure it met.

use vstd::prelude::*;
use vstd::slice::slice_to_vec;

verus! {

/// Spec-level mirror of `FetchEntry`.
pub ghost struct FetchEntryV {
    pub path: Seq<char>,
    pub outcome: Result<Seq<u8>, Seq<char>>,
}

/// The view of one fetched path's outcome.
pub open spec fn fetch_outcome_view(o: Result<Vec<u8>, String>) -> Result<Seq<u8>, Seq<char>> {
    match o {
        Ok(v) => Ok(v@),
        Err(m) => Err(m@),
    }
}

/// One fetched path with its outcome.
#[derive(Debug, PartialEq, Eq)]
pub struct FetchEntry {
    /// The path that was fetched.
    pub path: String,
    /// The bytes read, or the loader's failure message.
    pub outcome: Result<Vec<u8>, String>,
}

impl View for FetchEntry {
    type V = FetchEntryV;

    open spec fn view(&self) -> FetchEntryV {
        FetchEntryV { path: self.path@, outcome: fetch_outcome_view(self.outcome) }
    }
}

/// A batch loader's answer for the paths of one resolution phase.
#[derive(Debug, PartialEq, Eq)]
pub struct FetchBundle {
    /// The fetched paths, each with its outcome.
    pub entries: Vec<FetchEntry>,
}

impl View for FetchBundle {
    type V = Seq<FetchEntryV>;

    open spec fn view(&self) -> Seq<FetchEntryV> {
        Seq::new(self.entries@.len(), |i: int| self.entries@[i]@)
    }
}

/// The outcome recorded for `path`: that of the first entry bearing it.
pub open spec fn bundle_lookup(b: Seq<FetchEntryV>, path: Seq<char>) -> Option<
    Result<Seq<u8>, Seq<char>>,
>
    decreases b.len(),
{
    if b.len() == 0 {
        None
    } else if b[0].path == path {
        Some(b[0].outcome)
    } else {
        bundle_lookup(b.drop_first(), path)
    }
}

impl FetchBundle {
    /// An empty bundle.
    pub fn new() -> (r: FetchBundle)
        ensures
            r@ == Seq::<FetchEntryV>::empty(),
    {
        let r = FetchBundle { entries: Vec::new() };
        proof {
            assert(r@ =~= Seq::<FetchEntryV>::empty());
        }
        r
    }

    /// Records the outcome of one fetched path.
    pub fn push(&mut self, path: String, outcome: Result<Vec<u8>, String>)
        ensures
            final(self)@ == old(self)@.push(
                FetchEntryV { path: path@, outcome: fetch_outcome_view(outcome) },
            ),
    {
        let ghost entry_v = FetchEntryV { path: path@, outcome: fetch_outcome_view(outcome) };
        self.entries.push(FetchEntry { path, outcome });
        proof {
            assert(self@ =~= old(self)@.push(entry_v));
        }
    }

    /// Looks up the outcome recorded for `path`, copying it out.
    pub fn lookup(&self, path: &String) -> (r: Option<Result<Vec<u8>, String>>)
        ensures
            match r {
                Some(o) => bundle_lookup(self@, path@) == Some(fetch_outcome_view(o)),
                None => bundle_lookup(self@, path@) is None,
            },
    {
        let n: usize = self.entries.len();
        let mut i: usize = 0;
        proof {
            assert(self@.skip(0) =~= self@);
        }
        while i < n
            invariant
                i <= n,
                n == self.entries@.len(),
                n == self@.len(),
                bundle_lookup(self@, path@) == bundle_lookup(self@.skip(i as int), path@),
            decreases n - i,
        {
            proof {
                assert(self@.skip(i as int)[0] == self@[i as int]);
                assert(self@.skip(i as int).drop_first() =~= self@.skip(i + 1));
            }
            let e = &self.entries[i];
            if e.path == *path {
                let out: Result<Vec<u8>, String> = match &e.outcome {
                    Ok(v) => Ok(slice_to_vec(v.as_slice())),
                    Err(m) => Err(m.clone()),
                };
                return Some(out);
            }
            i += 1;
        }
        proof {
            assert(self@.skip(n as int) =~= Seq::<FetchEntryV>::empty());
        }
        None
    }
}

} // verus!

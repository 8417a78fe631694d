//! String-keyed attribute dictionaries, as the external decoder hands
//! them over: material property records and transform-frame attributes.
//! A lookup returns the value of the first entry with the given key.

use vstd::prelude::*;

verus! {

/// One attribute entry.
#[derive(Clone, Debug, PartialEq, Eq)]
pub struct Attr {
    pub key: String,
    pub value: String,
}

/// One string-keyed attribute dictionary.
#[derive(Clone, Debug, PartialEq, Eq)]
pub struct Dict {
    pub entries: Vec<Attr>,
}

/// The value of the first entry whose key equals `key`.
pub open spec fn lookup(entries: Seq<Attr>, key: Seq<char>) -> Option<Seq<char>>
    decreases entries.len()
{
    if entries.len() == 0 {
        None
    } else if entries[0].key@ == key {
        Some(entries[0].value@)
    } else {
        lookup(entries.skip(1), key)
    }
}

/// Look one key up in a dictionary.
pub fn lookup_attr(d: &Dict, key: &str) -> (r: Option<String>)
    ensures
        match r {
            Some(v) => lookup(d.entries@, key@) == Some(v@),
            None => lookup(d.entries@, key@) is None,
        },
{
    let needle: String = key.to_owned();
    let n = d.entries.len();
    assert(d.entries@.skip(0) =~= d.entries@);
    let mut i: usize = 0;
    while i < n
        invariant
            i <= n,
            n == d.entries@.len(),
            needle@ == key@,
            lookup(d.entries@, key@) == lookup(d.entries@.skip(i as int), key@),
        decreases n - i,
    {
        proof {
            let rest = d.entries@.skip(i as int);
            assert(rest[0] == d.entries@[i as int]);
            assert(rest.skip(1) =~= d.entries@.skip(i + 1));
        }
        if d.entries[i].key == needle {
            let v = d.entries[i].value.clone();
            return Some(v);
        }
        i = i + 1;
    }
    assert(d.entries@.skip(n as int) =~= Seq::<Attr>::empty());
    None
}

} // verus!

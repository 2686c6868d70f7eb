//! The wire representation: a self-describing tree of text, integer and
//! boolean leaves and keyed structures, together with key lookup.

use vstd::prelude::*;

verus! {

/// A wire node.  `Object` is a keyed structure: an ordered list of
/// key-value entries.  Integers travel as `i64`, which holds the full range
/// of both 32-bit primitive kinds losslessly.
#[derive(Debug)]
pub enum WireValue {
    Text(String),
    Int(i64),
    Bool(bool),
    Object(Vec<(String, WireValue)>),
}

/// Mathematical view of a wire node.
pub ghost enum WireV {
    Text(Seq<char>),
    Int(i64),
    Bool(bool),
    Object(Seq<(Seq<char>, WireV)>),
}

/// The view of a wire node.
pub open spec fn wire_view(w: WireValue) -> WireV
    decreases w, 1int,
{
    match w {
        WireValue::Text(s) => WireV::Text(s@),
        WireValue::Int(n) => WireV::Int(n),
        WireValue::Bool(b) => WireV::Bool(b),
        WireValue::Object(entries) => WireV::Object(entries_view(entries@)),
    }
}

/// The views of an object's entries, elementwise.
pub open spec fn entries_view(entries: Seq<(String, WireValue)>) -> Seq<(Seq<char>, WireV)>
    decreases entries, 2int,
{
    Seq::new(
        entries.len(),
        |i: int|
            if 0 <= i < entries.len() {
                (entries[i].0@, wire_view(entries[i].1))
            } else {
                (Seq::empty(), WireV::Bool(false))
            },
    )
}

/// The element correspondence of `entries_view`.
pub broadcast proof fn lemma_entries_view(entries: Seq<(String, WireValue)>)
    ensures
        (#[trigger] entries_view(entries)).len() == entries.len(),
        forall|i: int|
            0 <= i < entries.len() ==> #[trigger] entries_view(entries)[i] == (
            entries[i].0@,
            wire_view(entries[i].1),
            ),
{
}

impl View for WireValue {
    type V = WireV;

    open spec fn view(&self) -> WireV {
        wire_view(*self)
    }
}

/// The index of the first entry holding `key`, or `-1` if no entry does.
pub open spec fn key_index(entries: Seq<(Seq<char>, WireV)>, key: Seq<char>) -> int
    decreases entries.len(),
{
    if entries.len() == 0 {
        -1
    } else if entries[0].0 == key {
        0
    } else {
        let rest = key_index(entries.drop_first(), key);
        if rest < 0 {
            -1
        } else {
            rest + 1
        }
    }
}

/// What `key_index` means: a non-negative result is the first matching
/// entry; a negative result means no entry matches.
pub proof fn lemma_key_index(entries: Seq<(Seq<char>, WireV)>, key: Seq<char>)
    ensures
        key_index(entries, key) < 0 ==> forall|i: int|
            0 <= i < entries.len() ==> (#[trigger] entries[i].0) != key,
        key_index(entries, key) >= 0 ==> {
            &&& 0 <= key_index(entries, key) < entries.len()
            &&& entries[key_index(entries, key)].0 == key
            &&& forall|i: int|
                0 <= i < key_index(entries, key) ==> (#[trigger] entries[i].0) != key
        },
    decreases entries.len(),
{
    if entries.len() > 0 {
        let rest = entries.drop_first();
        lemma_key_index(rest, key);
        assert forall|i: int| 0 <= i < rest.len() implies rest[i] == entries[i + 1] by {}
        if entries[0].0 != key {
            if key_index(entries, key) < 0 {
                assert forall|i: int| 0 <= i < entries.len() implies (#[trigger] entries[i].0)
                    != key by {
                    if i > 0 {
                        assert(entries[i] == rest[i - 1]);
                    }
                }
            } else {
                let k = key_index(rest, key);
                assert(entries[k + 1] == rest[k]);
                assert forall|i: int| 0 <= i < key_index(entries, key) implies (
                #[trigger] entries[i].0) != key by {
                    if i > 0 {
                        assert(entries[i] == rest[i - 1]);
                    }
                }
            }
        }
    }
}

/// Find the first entry of an object holding `key`, returning its index.
#[verifier::loop_isolation(false)]
pub fn find_key(entries: &Vec<(String, WireValue)>, key: &String) -> (r: Option<usize>)
    ensures
        match r {
            Some(ix) => {
                &&& ix as int == key_index(entries_view(entries@), key@)
                &&& ix < entries@.len()
                &&& entries_view(entries@)[ix as int].0 == key@
            },
            None => key_index(entries_view(entries@), key@) < 0,
        },
{
    broadcast use lemma_entries_view;

    let ghost ev = entries_view(entries@);
    proof {
        assert(ev.skip(0) =~= ev);
    }
    let mut i: usize = 0;
    while i < entries.len()
        invariant
            0 <= i <= entries.len(),
            key_index(ev, key@) == (if key_index(ev.skip(i as int), key@) < 0 {
                -1int
            } else {
                key_index(ev.skip(i as int), key@) + i
            }),
        decreases entries.len() - i,
    {
        let ghost pre = ev.skip(i as int);
        proof {
            assert(pre[0] == ev[i as int]);
        }
        if entries[i].0.eq(key) {
            return Some(i);
        }
        proof {
            assert(pre.drop_first() =~= ev.skip(i + 1));
        }
        i += 1;
    }
    proof {
        assert(ev.skip(i as int) =~= Seq::<(Seq<char>, WireV)>::empty());
    }
    None
}

} // verus!

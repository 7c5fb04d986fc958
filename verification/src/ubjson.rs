//! UBJSON subset reader for the trailing metadata map: recursive descent
//! over signed 32-bit integers, length-prefixed text, and nested
//! string-keyed maps.

use vstd::prelude::*;

use vstd::utf8::{decode_utf8, valid_utf8};

use crate::codec::{be_i32, Reader};
use crate::Error;

verus! {

/// A metadata value: an arbitrarily nested tree rooted at the metadata map.
/// A map is an association list in stream order with pairwise distinct keys.
#[derive(Debug, PartialEq)]
pub enum Object {
    Int(i64),
    Dict(Vec<(String, Object)>),
    Str(String),
}

/// Conversion into a metadata value.
pub trait ToObject {
    /// The metadata value this converts to.
    spec fn as_object(&self) -> Object;

    fn to_object(self) -> (r: Object) where Self: Sized
        ensures
            r == self.as_object(),
    ;
}

impl ToObject for i64 {
    open spec fn as_object(&self) -> Object {
        Object::Int(*self)
    }

    fn to_object(self) -> (r: Object) {
        Object::Int(self)
    }
}

impl ToObject for String {
    open spec fn as_object(&self) -> Object {
        Object::Str(*self)
    }

    fn to_object(self) -> (r: Object) {
        Object::Str(self)
    }
}

impl ToObject for Vec<(String, Object)> {
    open spec fn as_object(&self) -> Object {
        Object::Dict(*self)
    }

    fn to_object(self) -> (r: Object) {
        Object::Dict(self)
    }
}

/// Whether the keys of an association list are pairwise distinct.
pub open spec fn keys_unique(m: Seq<(String, Object)>) -> bool {
    forall|i: int, j: int| 0 <= i < j < m.len() ==> m[i].0@ != m[j].0@
}

/// Last-wins insertion: replaces the value at an existing equal key (for a
/// list with unique keys, its one index), else appends the pair.
pub open spec fn spec_insert(m: Seq<(String, Object)>, k: String, v: Object) -> Seq<
    (String, Object),
> {
    if exists|j: int| 0 <= j < m.len() && m[j].0@ == k@ {
        m.update(choose|j: int| 0 <= j < m.len() && m[j].0@ == k@, (k, v))
    } else {
        m.push((k, v))
    }
}

/// The bytes of `d` from `from` up to exactly `to` encode the value `v`: a
/// signed 32-bit integer, a length-prefixed string, or a map.
pub open spec fn val_region(d: Seq<u8>, from: int, to: int, v: Object) -> bool
    decreases to - from, 1int,
{
    if to <= from || from < 0 || to > d.len() {
        false
    } else if d[from] == 0x6c {
        to == from + 5 && v == Object::Int(be_i32(d, from + 1) as i64)
    } else if d[from] == 0x53 {
        &&& from + 3 <= to
        &&& d[from + 1] == 0x55
        &&& d[from + 2] == to - (from + 3)
        &&& valid_utf8(d.subrange(from + 3, to))
        &&& (v matches Object::Str(s) && s@ == decode_utf8(d.subrange(from + 3, to)))
    } else {
        &&& d[from] == 0x7b
        &&& (v matches Object::Dict(m) && pairs_region(d, from + 1, to, Seq::empty(), m@))
    }
}

/// The bytes of `d` from `from` up to exactly `to` encode key/value pairs
/// followed by the closing marker, turning the accumulated entries `acc`
/// into `out` by last-wins insertion.
pub open spec fn pairs_region(
    d: Seq<u8>,
    from: int,
    to: int,
    acc: Seq<(String, Object)>,
    out: Seq<(String, Object)>,
) -> bool
    decreases to - from, 0int,
{
    if to <= from || from < 0 || to > d.len() {
        false
    } else if d[from] == 0x7d {
        to == from + 1 && out == acc
    } else {
        &&& d[from] == 0x55
        &&& from + 2 <= to
        &&& from + 2 + d[from + 1] <= to
        &&& valid_utf8(d.subrange(from + 2, from + 2 + d[from + 1]))
        &&& exists|k: String, v: Object, vend: int|
            #![trigger spec_insert(acc, k, v), d.subrange(vend, to)]
            {
                &&& k@ == decode_utf8(d.subrange(from + 2, from + 2 + d[from + 1]))
                &&& from + 2 + d[from + 1] < vend <= to
                &&& val_region(d, from + 2 + d[from + 1], vend, v)
                &&& pairs_region(d, vend, to, spec_insert(acc, k, v), out)
            }
    }
}

/// Adds a key/value pair to an association list, replacing the value of an
/// existing equal key.
#[verifier::loop_isolation(false)]
pub fn map_insert(m: &mut Vec<(String, Object)>, k: String, v: Object)
    requires
        keys_unique(old(m)@),
    ensures
        keys_unique(final(m)@),
        final(m)@ == spec_insert(old(m)@, k, v),
{
    let mut i: usize = 0;
    while i < m.len()
        invariant
            i <= m@.len(),
            m@ == old(m)@,
            forall|j: int| 0 <= j < i ==> m@[j].0@ != k@,
        decreases m@.len() - i,
    {
        if m[i].0 == k {
            proof {
                let j0 = choose|j: int| 0 <= j < m@.len() && m@[j].0@ == k@;
                assert(0 <= j0 < m@.len() && m@[j0].0@ == k@);
                if j0 != i as int {
                    assert(m@[j0].0@ == m@[i as int].0@);
                    assert(false);
                }
            }
            m[i] = (k, v);
            return ;
        }
        i = i + 1;
    }
    m.push((k, v));
}

proof fn lemma_pairs_region_step(
    d: Seq<u8>,
    from: int,
    to: int,
    acc: Seq<(String, Object)>,
    out: Seq<(String, Object)>,
    k: String,
    v: Object,
    vend: int,
)
    requires
        0 <= from < d.len(),
        to <= d.len(),
        d[from] == 0x55,
        from + 2 + d[from + 1] <= to,
        valid_utf8(d.subrange(from + 2, from + 2 + d[from + 1])),
        k@ == decode_utf8(d.subrange(from + 2, from + 2 + d[from + 1])),
        from + 2 + d[from + 1] < vend <= to,
        val_region(d, from + 2 + d[from + 1], vend, v),
        pairs_region(d, vend, to, spec_insert(acc, k, v), out),
    ensures
        pairs_region(d, from, to, acc, out),
{
    assert(!(to <= from || from < 0 || to > d.len()));
    assert(d[from] != 0x7d);
    assert(from + 2 <= to);
    // Ground instances of the definition's trigger terms, so its existential
    // can be instantiated with the witness (k, v, vend).
    assert(d.subrange(vend, to) =~= d.subrange(vend, to));
    assert(spec_insert(acc, k, v) == spec_insert(acc, k, v));
    assert(pairs_region(d, from, to, acc, out));
}

/// Reads a length-prefixed text item: one length byte, then that many bytes
/// of UTF-8 text. Bytes that are not valid UTF-8 fail with `InvalidText`.
pub fn parse_utf8(r: &mut Reader) -> (res: Result<String, Error>)
    requires
        old(r).wf(),
    ensures
        final(r).wf(),
        final(r).data() == old(r).data(),
        final(r).pos() >= old(r).pos(),
        (match res {
            Ok(s) => {
                let d = old(r).data();
                let p = old(r).pos();
                &&& old(r).remaining() >= 1 + d[p]
                &&& valid_utf8(d.subrange(p + 1, p + 1 + d[p]))
                &&& s@ == decode_utf8(d.subrange(p + 1, p + 1 + d[p]))
                &&& final(r).pos() == p + 1 + d[p]
            },
            Err(e) => {
                let d = old(r).data();
                let p = old(r).pos();
                let rem = old(r).remaining();
                ||| (rem < 1 && e == Error::TruncatedInput)
                ||| (rem >= 1 && rem < 1 + d[p] && e == Error::TruncatedInput)
                ||| (rem >= 1 + d[p] && !valid_utf8(d.subrange(p + 1, p + 1 + d[p])) && e
                    == Error::InvalidText)
            },
        }),
{
    let len = r.read_u8()?;
    let bytes = r.read_bytes(len as usize)?;
    match string_from_utf8(bytes) {
        Some(s) => Ok(s),
        None => Err(Error::InvalidText),
    }
}

/// Relies on `String::from_utf8`: it succeeds exactly on input that is valid
/// UTF-8, and then returns the text those bytes encode.
#[verifier::external_body]
fn string_from_utf8(bytes: Vec<u8>) -> (r: Option<String>)
    ensures
        r is Some <==> valid_utf8(bytes@),
        (r matches Some(s) ==> s@ == decode_utf8(bytes@)),
{
    String::from_utf8(bytes).ok()
}

/// Reads one map key: a key marker followed by length-prefixed text, or the
/// closing marker that ends the map (`None`). Any other marker fails with
/// `MalformedMetadata`.
pub fn parse_key(r: &mut Reader) -> (res: Result<Option<String>, Error>)
    requires
        old(r).wf(),
    ensures
        final(r).wf(),
        final(r).data() == old(r).data(),
        final(r).pos() >= old(r).pos(),
        (match res {
            Ok(k) => {
                let d = old(r).data();
                let p = old(r).pos();
                match k {
                    Some(s) => {
                        &&& old(r).remaining() >= 2
                        &&& d[p] == 0x55
                        &&& old(r).remaining() >= 2 + d[p + 1]
                        &&& valid_utf8(d.subrange(p + 2, p + 2 + d[p + 1]))
                        &&& s@ == decode_utf8(d.subrange(p + 2, p + 2 + d[p + 1]))
                        &&& final(r).pos() == p + 2 + d[p + 1]
                    },
                    None => {
                        &&& old(r).remaining() >= 1
                        &&& d[p] == 0x7d
                        &&& final(r).pos() == p + 1
                    },
                }
            },
            Err(e) => {
                let d = old(r).data();
                let p = old(r).pos();
                let rem = old(r).remaining();
                ||| (rem < 1 && e == Error::TruncatedInput)
                ||| (rem >= 1 && d[p] != 0x55 && d[p] != 0x7d && e == Error::MalformedMetadata)
                ||| (rem >= 1 && d[p] == 0x55 && e == Error::TruncatedInput && (rem < 2 || rem < 2
                    + d[p + 1]))
                ||| (rem >= 2 && d[p] == 0x55 && rem >= 2 + d[p + 1] && !valid_utf8(
                    d.subrange(p + 2, p + 2 + d[p + 1]),
                ) && e == Error::InvalidText)
            },
        }),
{
    let marker = r.read_u8()?;
    if marker == 0x55 {
        match parse_utf8(r) {
            Ok(s) => Ok(Some(s)),
            Err(e) => Err(e),
        }
    } else if marker == 0x7d {
        Ok(None)
    } else {
        Err(Error::MalformedMetadata)
    }
}

/// Reads one value: a string (`S` then `U`-prefixed text), a signed 32-bit
/// integer (`l`, widened to 64-bit storage), or a nested map (`{`). Any
/// other marker fails with `UnsupportedValueType`.
pub fn parse_val(r: &mut Reader) -> (res: Result<Object, Error>)
    requires
        old(r).wf(),
    ensures
        final(r).wf(),
        final(r).data() == old(r).data(),
        (match res {
            Ok(v) => {
                let d = old(r).data();
                let p = old(r).pos();
                &&& final(r).pos() > p
                &&& old(r).remaining() >= 1
                &&& val_region(d, p, final(r).pos(), v)
                &&& (d[p] == 0x53 || d[p] == 0x6c || d[p] == 0x7b)
                &&& (d[p] == 0x6c ==> old(r).remaining() >= 5 && v == Object::Int(
                    be_i32(d, p + 1) as i64,
                ) && final(r).pos() == p + 5)
                &&& (d[p] == 0x53 ==> d[p + 1] == 0x55 && (v matches Object::Str(s) && s@
                    == decode_utf8(d.subrange(p + 3, p + 3 + d[p + 2]))) && final(r).pos() == p + 3
                    + d[p + 2])
                &&& (d[p] == 0x7b ==> (v matches Object::Dict(m) && keys_unique(m@))
                    && d[final(r).pos() - 1] == 0x7d)
            },
            Err(e) => {
                let d = old(r).data();
                let p = old(r).pos();
                let rem = old(r).remaining();
                &&& (e == Error::TruncatedInput || e == Error::InvalidText || e
                    == Error::MalformedMetadata || e == Error::UnsupportedValueType)
                &&& (rem >= 1 && d[p] != 0x53 && d[p] != 0x6c && d[p] != 0x7b ==> e
                    == Error::UnsupportedValueType)
                &&& (rem >= 2 && d[p] == 0x53 && d[p + 1] != 0x55 ==> e
                    == Error::MalformedMetadata)
                &&& (rem >= 5 && d[p] == 0x6c ==> false)
            },
        }),
        ({
            let d = old(r).data();
            let p = old(r).pos();
            let rem = old(r).remaining();
            rem >= 3 && d[p] == 0x53 && d[p + 1] == 0x55 && rem >= 3 + d[p + 2] && valid_utf8(
                d.subrange(p + 3, p + 3 + d[p + 2]),
            ) ==> res is Ok
        }),
    decreases old(r).remaining(),
{
    let ghost d = old(r).data();
    let ghost p = old(r).pos();
    let marker = r.read_u8()?;
    if marker == 0x53 {
        let second = r.read_u8()?;
        if second != 0x55 {
            return Err(Error::MalformedMetadata);
        }
        match parse_utf8(r) {
            Ok(s) => {
                proof {
                    assert(val_region(d, p, r.pos(), Object::Str(s)));
                }
                Ok(Object::Str(s))
            },
            Err(e) => Err(e),
        }
    } else if marker == 0x6c {
        let n = r.read_i32()?;
        proof {
            assert(val_region(d, p, p + 5, Object::Int(n as i64)));
        }
        Ok(Object::Int(n as i64))
    } else if marker == 0x7b {
        match parse_map(r) {
            Ok(m) => {
                proof {
                    assert(val_region(d, p, r.pos(), Object::Dict(m)));
                }
                Ok(Object::Dict(m))
            },
            Err(e) => Err(e),
        }
    } else {
        Err(Error::UnsupportedValueType)
    }
}

/// Reads the key/value pairs of a map whose opening marker the caller has
/// already consumed, up to and including the closing marker. A later pair
/// with an equal key replaces the earlier value.
#[verifier::loop_isolation(false)]
pub fn parse_map(r: &mut Reader) -> (res: Result<Vec<(String, Object)>, Error>)
    requires
        old(r).wf(),
    ensures
        final(r).wf(),
        final(r).data() == old(r).data(),
        (match res {
            Ok(m) => {
                &&& keys_unique(m@)
                &&& final(r).pos() > old(r).pos()
                &&& old(r).data()[final(r).pos() - 1] == 0x7d
                &&& pairs_region(old(r).data(), old(r).pos(), final(r).pos(), Seq::empty(), m@)
            },
            Err(e) => e == Error::TruncatedInput || e == Error::InvalidText || e
                == Error::MalformedMetadata || e == Error::UnsupportedValueType,
        }),
    decreases old(r).remaining(),
{
    let ghost d = old(r).data();
    let ghost p0 = old(r).pos();
    let mut m: Vec<(String, Object)> = Vec::new();
    let mut done = false;
    while !done
        invariant
            r.wf(),
            r.data() == d,
            r.pos() >= p0,
            keys_unique(m@),
            !done ==> (forall|to2: int, out2: Seq<(String, Object)>|
                pairs_region(d, r.pos(), to2, m@, out2) ==> pairs_region(
                    d,
                    p0,
                    to2,
                    Seq::empty(),
                    out2,
                )),
            done ==> r.pos() > p0 && d[r.pos() - 1] == 0x7d && pairs_region(
                d,
                p0,
                r.pos(),
                Seq::empty(),
                m@,
            ),
        decreases r.remaining(),
    {
        let ghost b = r.pos();
        let ghost m_old = m@;
        match parse_key(r) {
            Err(e) => {
                return Err(e);
            },
            Ok(None) => {
                proof {
                    assert(pairs_region(d, b, b + 1, m_old, m_old));
                    assert(pairs_region(d, p0, b + 1, Seq::empty(), m_old));
                }
                done = true;
            },
            Ok(Some(k)) => {
                let ghost gk = k;
                let ghost kend = r.pos();
                match parse_val(r) {
                    Err(e) => {
                        return Err(e);
                    },
                    Ok(v) => {
                        let ghost gv = v;
                        let ghost q = r.pos();
                        map_insert(&mut m, k, v);
                        proof {
                            assert forall|to2: int, out2: Seq<(String, Object)>|
                                pairs_region(d, q, to2, m@, out2) implies pairs_region(
                                d,
                                p0,
                                to2,
                                Seq::empty(),
                                out2,
                            ) by {
                                assert(to2 > q && to2 <= d.len());
                                assert(0 <= b && b < d.len());
                                assert(d[b] == 0x55);
                                assert(valid_utf8(d.subrange(b + 2, b + 2 + d[b + 1])));
                                assert(gk@ == decode_utf8(d.subrange(b + 2, b + 2 + d[b + 1])));
                                assert(kend == b + 2 + d[b + 1]);
                                assert(kend < q <= to2);
                                assert(val_region(d, b + 2 + d[b + 1], q, gv));
                                assert(pairs_region(d, q, to2, spec_insert(m_old, gk, gv), out2));
                                lemma_pairs_region_step(d, b, to2, m_old, out2, gk, gv, q);
                                assert(pairs_region(d, b, to2, m_old, out2));
                            }
                        }
                    },
                }
            },
        }
    }
    Ok(m)
}

} // verus!

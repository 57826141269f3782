//! The record decoder.
//!
//! A fragment's event span is decoded into a [`Release`] by hand: the
//! fragment's direct children are split out once, and each field follows
//! the mapping rules — `id`, `status`, `catno`, `name`, `qty`, `duration`
//! and `src` bind to attributes, everything else to child-element text;
//! repeated groups default to empty when their container is absent, while
//! the optional groups (genres, styles, videos) stay unset in that case;
//! and the derived year is cut from the date at write time. Every rule has
//! a specification mirror, and the decoder is proved to match it exactly.

use vstd::prelude::*;

use crate::events::XmlEvent;
use crate::record::{Artist, ArtistV, Format, FormatV, Label, LabelV, Release, ReleaseV, Track,
    TrackV, Video, VideoV};

verus! {

/// Why a fragment failed to decode.
#[derive(Clone, Copy, Debug, PartialEq, Eq, Structural)]
pub enum DecodeError {
    /// The fragment is not a well-formed element tree.
    Malformed,
    /// A required field is absent.
    MissingField,
    /// A numeric field does not hold a plain decimal number that fits the
    /// machine.
    InvalidNumber,
}

/// One direct child element of a decoded element: its name, its attributes,
/// and the index range `[lo, hi)` of its inner events within the fragment's
/// event span.
#[derive(Debug, Clone, PartialEq, Eq)]
pub struct ChildElem {
    pub name: Vec<u8>,
    pub attrs: Vec<(Vec<u8>, Vec<u8>)>,
    pub lo: usize,
    pub hi: usize,
}

/// Mathematical mirror of [`ChildElem`].
pub struct ChildV {
    pub name: Seq<u8>,
    pub attrs: Seq<(Seq<u8>, Seq<u8>)>,
    pub lo: int,
    pub hi: int,
}

/// The views of an attribute list's pairs.
pub open spec fn attrs_view(attrs: Seq<(Vec<u8>, Vec<u8>)>) -> Seq<(Seq<u8>, Seq<u8>)> {
    attrs.map_values(|p: (Vec<u8>, Vec<u8>)| (p.0@, p.1@))
}

impl View for ChildElem {
    type V = ChildV;

    open spec fn view(&self) -> ChildV {
        ChildV {
            name: self.name@,
            attrs: attrs_view(self.attrs@),
            lo: self.lo as int,
            hi: self.hi as int,
        }
    }
}

/// The text content of the events in `[i, hi)`, read at nesting depth
/// `depth` with `acc` already collected: the concatenation of the
/// depth-zero character data, in order, skipping everything nested.
pub open spec fn text_from(
    events: Seq<XmlEvent>,
    i: int,
    hi: int,
    depth: int,
    acc: Seq<u8>,
) -> Result<Seq<u8>, DecodeError>
    decreases hi - i,
{
    if i < 0 || i >= hi || i >= events.len() {
        if depth == 0 {
            Ok(acc)
        } else {
            Err(DecodeError::Malformed)
        }
    } else {
        match events[i] {
            XmlEvent::Start { .. } => text_from(events, i + 1, hi, depth + 1, acc),
            XmlEvent::Empty { .. } => text_from(events, i + 1, hi, depth, acc),
            XmlEvent::End { .. } => if depth == 0 {
                Err(DecodeError::Malformed)
            } else {
                text_from(events, i + 1, hi, depth - 1, acc)
            },
            XmlEvent::Text { value, .. } => if depth == 0 {
                text_from(events, i + 1, hi, depth, acc + value@)
            } else {
                text_from(events, i + 1, hi, depth, acc)
            },
            XmlEvent::Other { .. } => text_from(events, i + 1, hi, depth, acc),
            XmlEvent::Eof => Err(DecodeError::Malformed),
            XmlEvent::Malformed => Err(DecodeError::Malformed),
        }
    }
}

/// The text content of an element whose inner events are `[lo, hi)`.
pub open spec fn text_spec(events: Seq<XmlEvent>, lo: int, hi: int) -> Result<
    Seq<u8>,
    DecodeError,
> {
    text_from(events, lo, hi, 0, Seq::empty())
}

/// Collects an element's text content, exactly as [`text_spec`] says.
pub fn text_range(events: &Vec<XmlEvent>, lo: usize, hi: usize) -> (r: Result<Vec<u8>, DecodeError>)
    requires
        lo <= hi <= events@.len(),
    ensures
        match r {
            Ok(t) => text_spec(events@, lo as int, hi as int) == Ok::<Seq<u8>, DecodeError>(t@),
            Err(e) => text_spec(events@, lo as int, hi as int) == Err::<Seq<u8>, DecodeError>(e),
        },
{
    let mut acc: Vec<u8> = Vec::new();
    let mut i: usize = lo;
    let mut depth: usize = 0;
    while i < hi
        invariant
            lo <= i <= hi <= events@.len(),
            depth <= i - lo,
            text_from(events@, i as int, hi as int, depth as int, acc@) == text_spec(
                events@,
                lo as int,
                hi as int,
            ),
        decreases hi - i,
    {
        match &events[i] {
            XmlEvent::Start { .. } => {
                depth += 1;
            },
            XmlEvent::Empty { .. } => {},
            XmlEvent::End { .. } => {
                if depth == 0 {
                    return Err(DecodeError::Malformed);
                }
                depth -= 1;
            },
            XmlEvent::Text { value, .. } => {
                if depth == 0 {
                    crate::events::push_bytes(&mut acc, value);
                }
            },
            XmlEvent::Other { .. } => {},
            XmlEvent::Eof => {
                return Err(DecodeError::Malformed);
            },
            XmlEvent::Malformed => {
                return Err(DecodeError::Malformed);
            },
        }
        i += 1;
    }
    if depth != 0 {
        return Err(DecodeError::Malformed);
    }
    Ok(acc)
}

/// The value of the first attribute named `name`, if any.
pub open spec fn find_attr_spec(attrs: Seq<(Seq<u8>, Seq<u8>)>, name: Seq<u8>) -> Option<Seq<u8>>
    decreases attrs.len(),
{
    if attrs.len() == 0 {
        None
    } else if attrs[0].0 == name {
        Some(attrs[0].1)
    } else {
        find_attr_spec(attrs.drop_first(), name)
    }
}

/// The index of the first child named `name`, if any.
pub open spec fn find_child_spec(cs: Seq<ChildV>, name: Seq<u8>) -> Option<ChildV>
    decreases cs.len(),
{
    if cs.len() == 0 {
        None
    } else if cs[0].name == name {
        Some(cs[0])
    } else {
        find_child_spec(cs.drop_first(), name)
    }
}

/// Byte-vector versus byte-slice equality, decided element by element.
fn bytes_is(a: &Vec<u8>, b: &[u8]) -> (r: bool)
    ensures
        r == (a@ == b@),
{
    if a.len() != b.len() {
        assert(a@ != b@) by {
            assert(a@.len() != b@.len());
        }
        return false;
    }
    let mut i: usize = 0;
    while i < a.len()
        invariant
            i <= a.len(),
            a@.len() == b@.len(),
            forall|j: int| 0 <= j < i ==> a@[j] == b@[j],
        decreases a.len() - i,
    {
        if a[i] != b[i] {
            return false;
        }
        i += 1;
    }
    assert(a@ =~= b@);
    true
}

/// Looks an attribute up, exactly as [`find_attr_spec`] says.
pub fn find_attr<'a>(attrs: &'a Vec<(Vec<u8>, Vec<u8>)>, name: &[u8]) -> (r: Option<&'a Vec<u8>>)
    ensures
        match r {
            Some(v) => find_attr_spec(attrs_view(attrs@), name@) == Some(v@),
            None => find_attr_spec(attrs_view(attrs@), name@) is None,
        },
{
    let ghost full = attrs_view(attrs@);
    proof {
        assert(full.skip(0) =~= full);
    }
    let mut i: usize = 0;
    while i < attrs.len()
        invariant
            i <= attrs@.len(),
            full == attrs_view(attrs@),
            full.len() == attrs@.len(),
            find_attr_spec(full.skip(i as int), name@) == find_attr_spec(full, name@),
        decreases attrs@.len() - i,
    {
        if bytes_is(&attrs[i].0, name) {
            assert(full.skip(i as int)[0] == full[i as int]);
            return Some(&attrs[i].1);
        }
        assert(full.skip(i as int).drop_first() =~= full.skip(i + 1));
        assert(full.skip(i as int)[0] == full[i as int]);
        i += 1;
    }
    assert(full.skip(attrs@.len() as int) =~= Seq::<(Seq<u8>, Seq<u8>)>::empty());
    None
}

/// Looks a child element up, exactly as [`find_child_spec`] says.
pub fn find_child<'a>(cs: &'a Vec<ChildElem>, name: &[u8]) -> (r: Option<&'a ChildElem>)
    ensures
        match r {
            Some(c) => find_child_spec(children_view(cs@), name@) == Some(c@),
            None => find_child_spec(children_view(cs@), name@) is None,
        },
{
    let ghost full = children_view(cs@);
    proof {
        assert(full.skip(0) =~= full);
    }
    let mut i: usize = 0;
    while i < cs.len()
        invariant
            i <= cs@.len(),
            full == children_view(cs@),
            full.len() == cs@.len(),
            find_child_spec(full.skip(i as int), name@) == find_child_spec(full, name@),
        decreases cs@.len() - i,
    {
        if bytes_is(&cs[i].name, name) {
            assert(full.skip(i as int)[0] == full[i as int]);
            return Some(&cs[i]);
        }
        assert(full.skip(i as int).drop_first() =~= full.skip(i + 1));
        assert(full.skip(i as int)[0] == full[i as int]);
        i += 1;
    }
    assert(full.skip(cs@.len() as int) =~= Seq::<ChildV>::empty());
    None
}

/// The views of a child list's elements.
pub open spec fn children_view(cs: Seq<ChildElem>) -> Seq<ChildV> {
    cs.map_values(|c: ChildElem| c@)
}

/// The number a byte string holds, read from index `i` with `acc` already
/// read: every byte must be a decimal digit and the value must fit the
/// machine's word.
pub open spec fn parse_from(s: Seq<u8>, i: int, acc: int) -> Option<int>
    decreases s.len() - i,
{
    if i < 0 || i >= s.len() {
        Some(acc)
    } else if 48 <= s[i] <= 57 {
        if acc * 10 + (s[i] - 48) > usize::MAX {
            None
        } else {
            parse_from(s, i + 1, acc * 10 + (s[i] - 48))
        }
    } else {
        None
    }
}

/// The number a whole byte string holds; an empty string holds none.
pub open spec fn parse_num_spec(s: Seq<u8>) -> Option<int> {
    if s.len() == 0 {
        None
    } else {
        parse_from(s, 0, 0)
    }
}

/// Reads a decimal number, exactly as [`parse_num_spec`] says.
pub fn parse_num(s: &Vec<u8>) -> (r: Option<usize>)
    ensures
        match r {
            Some(n) => parse_num_spec(s@) == Some(n as int),
            None => parse_num_spec(s@) is None,
        },
{
    if s.len() == 0 {
        return None;
    }
    let mut acc: usize = 0;
    let mut i: usize = 0;
    while i < s.len()
        invariant
            i <= s@.len(),
            s@.len() > 0,
            parse_from(s@, i as int, acc as int) == parse_num_spec(s@),
        decreases s@.len() - i,
    {
        let b = s[i];
        if b < 48 || b > 57 {
            return None;
        }
        let d: usize = (b - 48) as usize;
        match acc.checked_mul(10) {
            None => {
                proof {
                    assert(acc * 10 + d > usize::MAX);
                }
                return None;
            },
            Some(m) => {
                match m.checked_add(d) {
                    None => {
                        return None;
                    },
                    Some(a2) => {
                        acc = a2;
                    },
                }
            },
        }
        i += 1;
    }
    Some(acc)
}

/// Whether every child's inner range lies within an event span of length
/// `n`.
pub open spec fn wf_children(cs: Seq<ChildV>, n: int) -> bool {
    forall|k: int| 0 <= k < cs.len() ==> 0 <= (#[trigger] cs[k]).lo <= cs[k].hi <= n
}

/// Splitting the events in `[i, hi)` into direct children, with `acc`
/// already split out and `cur` the still-open child, if any: its name, its
/// attributes, the index its inner events begin at, and its nesting depth.
pub open spec fn split_from(
    events: Seq<XmlEvent>,
    i: int,
    hi: int,
    acc: Seq<ChildV>,
    cur: Option<(Seq<u8>, Seq<(Seq<u8>, Seq<u8>)>, int, int)>,
) -> Result<Seq<ChildV>, DecodeError>
    decreases hi - i,
{
    if i < 0 || i >= hi || i >= events.len() {
        match cur {
            None => Ok(acc),
            Some(_) => Err(DecodeError::Malformed),
        }
    } else {
        match events[i] {
            XmlEvent::Start { name, attrs, .. } => match cur {
                None => split_from(
                    events,
                    i + 1,
                    hi,
                    acc,
                    Some((name@, attrs_view(attrs@), i + 1, 0)),
                ),
                Some((n, a, s, d)) => split_from(events, i + 1, hi, acc, Some((n, a, s, d + 1))),
            },
            XmlEvent::Empty { name, attrs, .. } => match cur {
                None => split_from(
                    events,
                    i + 1,
                    hi,
                    acc.push(
                        ChildV { name: name@, attrs: attrs_view(attrs@), lo: i + 1, hi: i + 1 },
                    ),
                    None,
                ),
                Some(c) => split_from(events, i + 1, hi, acc, Some(c)),
            },
            XmlEvent::End { name, .. } => match cur {
                None => Err(DecodeError::Malformed),
                Some((n, a, s, d)) => if d == 0 {
                    if name@ == n {
                        split_from(
                            events,
                            i + 1,
                            hi,
                            acc.push(ChildV { name: n, attrs: a, lo: s, hi: i }),
                            None,
                        )
                    } else {
                        Err(DecodeError::Malformed)
                    }
                } else {
                    split_from(events, i + 1, hi, acc, Some((n, a, s, d - 1)))
                },
            },
            XmlEvent::Text { .. } => split_from(events, i + 1, hi, acc, cur),
            XmlEvent::Other { .. } => split_from(events, i + 1, hi, acc, cur),
            XmlEvent::Eof => Err(DecodeError::Malformed),
            XmlEvent::Malformed => Err(DecodeError::Malformed),
        }
    }
}

/// The direct children of an element whose inner events are `[lo, hi)`.
pub open spec fn split_spec(events: Seq<XmlEvent>, lo: int, hi: int) -> Result<
    Seq<ChildV>,
    DecodeError,
> {
    split_from(events, lo, hi, Seq::empty(), None)
}

/// A fresh copy of a byte vector.
fn clone_bytes(v: &Vec<u8>) -> (c: Vec<u8>)
    ensures
        c@ == v@,
{
    let mut c: Vec<u8> = Vec::new();
    crate::events::push_bytes(&mut c, v);
    c
}

/// A fresh copy of an attribute list.
fn clone_attrs(a: &Vec<(Vec<u8>, Vec<u8>)>) -> (c: Vec<(Vec<u8>, Vec<u8>)>)
    ensures
        attrs_view(c@) == attrs_view(a@),
{
    let mut c: Vec<(Vec<u8>, Vec<u8>)> = Vec::new();
    let mut i: usize = 0;
    while i < a.len()
        invariant
            i <= a@.len(),
            c@.len() == i,
            forall|j: int| 0 <= j < i ==> (#[trigger] c@[j]).0@ == a@[j].0@ && c@[j].1@ == a@[j].1@,
        decreases a@.len() - i,
    {
        c.push((clone_bytes(&a[i].0), clone_bytes(&a[i].1)));
        i += 1;
    }
    assert(attrs_view(c@) =~= attrs_view(a@));
    c
}

/// Splits an element's inner events into its direct children, exactly as
/// [`split_spec`] says; each child's inner range lies within the span.
pub fn split_children(events: &Vec<XmlEvent>, lo: usize, hi: usize) -> (r: Result<
    Vec<ChildElem>,
    DecodeError,
>)
    requires
        lo <= hi <= events@.len(),
    ensures
        match r {
            Ok(cs) => split_spec(events@, lo as int, hi as int) == Ok::<_, DecodeError>(
                children_view(cs@),
            ) && wf_children(children_view(cs@), events@.len() as int),
            Err(e) => split_spec(events@, lo as int, hi as int) == Err::<Seq<ChildV>, _>(e),
        },
{
    let mut out: Vec<ChildElem> = Vec::new();
    let mut open = false;
    let mut cname: Vec<u8> = Vec::new();
    let mut cattrs: Vec<(Vec<u8>, Vec<u8>)> = Vec::new();
    let mut cstart: usize = 0;
    let mut depth: usize = 0;
    let mut i: usize = lo;
    proof {
        assert(children_view(out@) =~= Seq::<ChildV>::empty());
    }
    while i < hi
        invariant
            lo <= i <= hi <= events@.len(),
            open ==> cstart <= i && depth <= i - cstart,
            split_from(
                events@,
                i as int,
                hi as int,
                children_view(out@),
                if open {
                    Some((cname@, attrs_view(cattrs@), cstart as int, depth as int))
                } else {
                    None
                },
            ) == split_spec(events@, lo as int, hi as int),
            wf_children(children_view(out@), events@.len() as int),
        decreases hi - i,
    {
        let ghost pre_out = children_view(out@);
        match &events[i] {
            XmlEvent::Start { name, attrs, .. } => {
                if !open {
                    cname = clone_bytes(name);
                    cattrs = clone_attrs(attrs);
                    cstart = i + 1;
                    depth = 0;
                    open = true;
                } else {
                    depth += 1;
                }
            },
            XmlEvent::Empty { name, attrs, .. } => {
                if !open {
                    let child = ChildElem {
                        name: clone_bytes(name),
                        attrs: clone_attrs(attrs),
                        lo: i + 1,
                        hi: i + 1,
                    };
                    assert(child@ == (ChildV {
                        name: name@,
                        attrs: attrs_view(attrs@),
                        lo: i + 1,
                        hi: i + 1,
                    }));
                    out.push(child);
                    assert(children_view(out@) =~= pre_out.push(child@));
                }
            },
            XmlEvent::End { name, .. } => {
                if !open {
                    return Err(DecodeError::Malformed);
                }
                if depth == 0 {
                    if !crate::events::bytes_eq(name, &cname) {
                        return Err(DecodeError::Malformed);
                    }
                    let child = ChildElem { name: cname, attrs: cattrs, lo: cstart, hi: i };
                    out.push(child);
                    assert(children_view(out@) =~= pre_out.push(child@));
                    cname = Vec::new();
                    cattrs = Vec::new();
                    open = false;
                    depth = 0;
                } else {
                    depth -= 1;
                }
            },
            XmlEvent::Text { .. } => {},
            XmlEvent::Other { .. } => {},
            XmlEvent::Eof => {
                return Err(DecodeError::Malformed);
            },
            XmlEvent::Malformed => {
                return Err(DecodeError::Malformed);
            },
        }
        i += 1;
    }
    if open {
        return Err(DecodeError::Malformed);
    }
    Ok(out)
}

/// A decode result, seen mathematically.
pub open spec fn res_view<T: View>(r: Result<T, DecodeError>) -> Result<T::V, DecodeError> {
    match r {
        Ok(t) => Ok(t@),
        Err(e) => Err(e),
    }
}

proof fn lemma_find_child_wf(cs: Seq<ChildV>, name: Seq<u8>, n: int)
    requires
        wf_children(cs, n),
    ensures
        find_child_spec(cs, name) matches Some(c) ==> 0 <= c.lo <= c.hi <= n,
    decreases cs.len(),
{
    if cs.len() > 0 && cs[0].name != name {
        assert forall|k: int| 0 <= k < cs.drop_first().len() implies 0 <= (#[trigger] cs.drop_first()[k]).lo
            <= cs.drop_first()[k].hi <= n by {
            assert(cs.drop_first()[k] == cs[k + 1]);
        }
        lemma_find_child_wf(cs.drop_first(), name, n);
    }
}

/// The text of the required child element `name`; its absence is a missing
/// field.
pub open spec fn req_text_spec(events: Seq<XmlEvent>, cs: Seq<ChildV>, name: Seq<u8>) -> Result<
    Seq<u8>,
    DecodeError,
> {
    match find_child_spec(cs, name) {
        None => Err(DecodeError::MissingField),
        Some(c) => text_spec(events, c.lo, c.hi),
    }
}

/// The text of the optional child element `name`, if it is present.
pub open spec fn opt_text_spec(events: Seq<XmlEvent>, cs: Seq<ChildV>, name: Seq<u8>) -> Result<
    Option<Seq<u8>>,
    DecodeError,
> {
    match find_child_spec(cs, name) {
        None => Ok(None),
        Some(c) => match text_spec(events, c.lo, c.hi) {
            Ok(t) => Ok(Some(t)),
            Err(e) => Err(e),
        },
    }
}

/// The value of the required attribute `name`.
pub open spec fn req_attr_spec(attrs: Seq<(Seq<u8>, Seq<u8>)>, name: Seq<u8>) -> Result<
    Seq<u8>,
    DecodeError,
> {
    match find_attr_spec(attrs, name) {
        None => Err(DecodeError::MissingField),
        Some(v) => Ok(v),
    }
}

/// The number held by the required attribute `name`.
pub open spec fn req_attr_num_spec(attrs: Seq<(Seq<u8>, Seq<u8>)>, name: Seq<u8>) -> Result<
    int,
    DecodeError,
> {
    match find_attr_spec(attrs, name) {
        None => Err(DecodeError::MissingField),
        Some(v) => match parse_num_spec(v) {
            None => Err(DecodeError::InvalidNumber),
            Some(n) => Ok(n),
        },
    }
}

/// The number held by the text of the required child element `name`.
pub open spec fn req_text_num_spec(events: Seq<XmlEvent>, cs: Seq<ChildV>, name: Seq<u8>) -> Result<
    int,
    DecodeError,
> {
    match req_text_spec(events, cs, name) {
        Err(e) => Err(e),
        Ok(t) => match parse_num_spec(t) {
            None => Err(DecodeError::InvalidNumber),
            Some(n) => Ok(n),
        },
    }
}

/// Reads a required child element's text, exactly as [`req_text_spec`] says.
fn req_text(events: &Vec<XmlEvent>, cs: &Vec<ChildElem>, name: &[u8]) -> (r: Result<
    Vec<u8>,
    DecodeError,
>)
    requires
        wf_children(children_view(cs@), events@.len() as int),
    ensures
        res_view(r) == req_text_spec(events@, children_view(cs@), name@),
{
    proof {
        lemma_find_child_wf(children_view(cs@), name@, events@.len() as int);
    }
    match find_child(cs, name) {
        None => Err(DecodeError::MissingField),
        Some(c) => text_range(events, c.lo, c.hi),
    }
}

/// Reads an optional child element's text, exactly as [`opt_text_spec`]
/// says.
fn opt_text(events: &Vec<XmlEvent>, cs: &Vec<ChildElem>, name: &[u8]) -> (r: Result<
    Option<Vec<u8>>,
    DecodeError,
>)
    requires
        wf_children(children_view(cs@), events@.len() as int),
    ensures
        r matches Ok(t) ==> opt_text_spec(events@, children_view(cs@), name@) == Ok::<
            _,
            DecodeError,
        >(crate::record::opt_bytes(t)),
        r matches Err(e) ==> opt_text_spec(events@, children_view(cs@), name@) == Err::<
            Option<Seq<u8>>,
            _,
        >(e),
{
    proof {
        lemma_find_child_wf(children_view(cs@), name@, events@.len() as int);
    }
    match find_child(cs, name) {
        None => Ok(None),
        Some(c) => match text_range(events, c.lo, c.hi) {
            Ok(t) => Ok(Some(t)),
            Err(e) => Err(e),
        },
    }
}

/// Reads a required attribute, exactly as [`req_attr_spec`] says.
fn req_attr(attrs: &Vec<(Vec<u8>, Vec<u8>)>, name: &[u8]) -> (r: Result<Vec<u8>, DecodeError>)
    ensures
        res_view(r) == req_attr_spec(attrs_view(attrs@), name@),
{
    match find_attr(attrs, name) {
        None => Err(DecodeError::MissingField),
        Some(v) => Ok(clone_bytes(v)),
    }
}

/// Reads a required numeric attribute, exactly as [`req_attr_num_spec`]
/// says.
fn req_attr_num(attrs: &Vec<(Vec<u8>, Vec<u8>)>, name: &[u8]) -> (r: Result<usize, DecodeError>)
    ensures
        r matches Ok(n) ==> req_attr_num_spec(attrs_view(attrs@), name@) == Ok::<_, DecodeError>(
            n as int,
        ),
        r matches Err(e) ==> req_attr_num_spec(attrs_view(attrs@), name@) == Err::<int, _>(e),
{
    match find_attr(attrs, name) {
        None => Err(DecodeError::MissingField),
        Some(v) => match parse_num(v) {
            None => Err(DecodeError::InvalidNumber),
            Some(n) => Ok(n),
        },
    }
}

/// Reads a required numeric child element, exactly as [`req_text_num_spec`]
/// says.
fn req_text_num(events: &Vec<XmlEvent>, cs: &Vec<ChildElem>, name: &[u8]) -> (r: Result<
    usize,
    DecodeError,
>)
    requires
        wf_children(children_view(cs@), events@.len() as int),
    ensures
        r matches Ok(n) ==> req_text_num_spec(events@, children_view(cs@), name@) == Ok::<
            _,
            DecodeError,
        >(n as int),
        r matches Err(e) ==> req_text_num_spec(events@, children_view(cs@), name@) == Err::<
            int,
            _,
        >(e),
{
    match req_text(events, cs, name) {
        Err(e) => Err(e),
        Ok(t) => match parse_num(&t) {
            None => Err(DecodeError::InvalidNumber),
            Some(n) => Ok(n),
        },
    }
}

/// One artist occurrence: numeric `id` and `name`, both child elements.
pub open spec fn artist_spec(events: Seq<XmlEvent>, c: ChildV) -> Result<ArtistV, DecodeError> {
    match split_spec(events, c.lo, c.hi) {
        Err(e) => Err(e),
        Ok(cs) => match req_text_num_spec(events, cs, crate::names::n_id()) {
            Err(e) => Err(e),
            Ok(id) => match req_text_spec(events, cs, crate::names::n_name()) {
                Err(e) => Err(e),
                Ok(name) => Ok(ArtistV { id: id as usize, name }),
            },
        },
    }
}

/// One label occurrence: `id`, `catno` and `name`, all attributes.
pub open spec fn label_spec(c: ChildV) -> Result<LabelV, DecodeError> {
    match req_attr_num_spec(c.attrs, crate::names::n_id()) {
        Err(e) => Err(e),
        Ok(id) => match req_attr_spec(c.attrs, crate::names::n_catno()) {
            Err(e) => Err(e),
            Ok(catno) => match req_attr_spec(c.attrs, crate::names::n_name()) {
                Err(e) => Err(e),
                Ok(name) => Ok(LabelV { id: id as usize, catno, name }),
            },
        },
    }
}

/// One format occurrence: `name` and `qty`, both attributes.
pub open spec fn format_spec(c: ChildV) -> Result<FormatV, DecodeError> {
    match req_attr_spec(c.attrs, crate::names::n_name()) {
        Err(e) => Err(e),
        Ok(name) => match req_attr_num_spec(c.attrs, crate::names::n_qty()) {
            Err(e) => Err(e),
            Ok(qty) => Ok(FormatV { name, qty: qty as usize }),
        },
    }
}

/// One track: its `title` child element.
pub open spec fn track_spec(events: Seq<XmlEvent>, c: ChildV) -> Result<TrackV, DecodeError> {
    match split_spec(events, c.lo, c.hi) {
        Err(e) => Err(e),
        Ok(cs) => match req_text_spec(events, cs, crate::names::n_title()) {
            Err(e) => Err(e),
            Ok(title) => Ok(TrackV { title }),
        },
    }
}

/// One video: its `title` child element, and the `duration` and `src`
/// attributes.
pub open spec fn video_spec(events: Seq<XmlEvent>, c: ChildV) -> Result<VideoV, DecodeError> {
    match split_spec(events, c.lo, c.hi) {
        Err(e) => Err(e),
        Ok(cs) => match req_text_spec(events, cs, crate::names::n_title()) {
            Err(e) => Err(e),
            Ok(title) => match req_attr_num_spec(c.attrs, crate::names::n_duration()) {
                Err(e) => Err(e),
                Ok(duration) => match req_attr_spec(c.attrs, crate::names::n_src()) {
                    Err(e) => Err(e),
                    Ok(src) => Ok(VideoV { title, duration: duration as usize, src }),
                },
            },
        },
    }
}

/// Decodes one artist element, exactly as [`artist_spec`] says.
fn decode_artist(events: &Vec<XmlEvent>, c: &ChildElem) -> (r: Result<Artist, DecodeError>)
    requires
        c@.lo <= c@.hi <= events@.len(),
    ensures
        res_view(r) == artist_spec(events@, c@),
{
    match split_children(events, c.lo, c.hi) {
        Err(e) => Err(e),
        Ok(cs) => match req_text_num(events, &cs, crate::names::k_id().as_slice()) {
            Err(e) => Err(e),
            Ok(id) => match req_text(events, &cs, crate::names::k_name().as_slice()) {
                Err(e) => Err(e),
                Ok(name) => Ok(Artist { id, name }),
            },
        },
    }
}

/// Decodes one label element, exactly as [`label_spec`] says.
fn decode_label(c: &ChildElem) -> (r: Result<Label, DecodeError>)
    ensures
        res_view(r) == label_spec(c@),
{
    match req_attr_num(&c.attrs, crate::names::k_id().as_slice()) {
        Err(e) => Err(e),
        Ok(id) => match req_attr(&c.attrs, crate::names::k_catno().as_slice()) {
            Err(e) => Err(e),
            Ok(catno) => match req_attr(&c.attrs, crate::names::k_name().as_slice()) {
                Err(e) => Err(e),
                Ok(name) => Ok(Label { id, catno, name }),
            },
        },
    }
}

/// Decodes one format element, exactly as [`format_spec`] says.
fn decode_format(c: &ChildElem) -> (r: Result<Format, DecodeError>)
    ensures
        res_view(r) == format_spec(c@),
{
    match req_attr(&c.attrs, crate::names::k_name().as_slice()) {
        Err(e) => Err(e),
        Ok(name) => match req_attr_num(&c.attrs, crate::names::k_qty().as_slice()) {
            Err(e) => Err(e),
            Ok(qty) => Ok(Format { name, qty }),
        },
    }
}

/// Decodes one track element, exactly as [`track_spec`] says.
fn decode_track(events: &Vec<XmlEvent>, c: &ChildElem) -> (r: Result<Track, DecodeError>)
    requires
        c@.lo <= c@.hi <= events@.len(),
    ensures
        res_view(r) == track_spec(events@, c@),
{
    match split_children(events, c.lo, c.hi) {
        Err(e) => Err(e),
        Ok(cs) => match req_text(events, &cs, crate::names::k_title().as_slice()) {
            Err(e) => Err(e),
            Ok(title) => Ok(Track { title }),
        },
    }
}

/// Decodes one video element, exactly as [`video_spec`] says.
fn decode_video(events: &Vec<XmlEvent>, c: &ChildElem) -> (r: Result<Video, DecodeError>)
    requires
        c@.lo <= c@.hi <= events@.len(),
    ensures
        res_view(r) == video_spec(events@, c@),
{
    match split_children(events, c.lo, c.hi) {
        Err(e) => Err(e),
        Ok(cs) => match req_text(events, &cs, crate::names::k_title().as_slice()) {
            Err(e) => Err(e),
            Ok(title) => match req_attr_num(&c.attrs, crate::names::k_duration().as_slice()) {
                Err(e) => Err(e),
                Ok(duration) => match req_attr(&c.attrs, crate::names::k_src().as_slice()) {
                    Err(e) => Err(e),
                    Ok(src) => Ok(Video { title, duration, src }),
                },
            },
        },
    }
}


/// The artists among `cs` from index `k` on, with `acc` already decoded:
/// every child named `artist`, decoded in order.
pub open spec fn artists_from(
    events: Seq<XmlEvent>,
    cs: Seq<ChildV>,
    k: int,
    acc: Seq<ArtistV>,
) -> Result<Seq<ArtistV>, DecodeError>
    decreases cs.len() - k,
{
    if k < 0 || k >= cs.len() {
        Ok(acc)
    } else if cs[k].name == crate::names::n_artist() {
        match artist_spec(events, cs[k]) {
            Err(e) => Err(e),
            Ok(a) => artists_from(events, cs, k + 1, acc.push(a)),
        }
    } else {
        artists_from(events, cs, k + 1, acc)
    }
}

/// The labels among `cs` from index `k` on; see [`artists_from`].
pub open spec fn labels_from(
    events: Seq<XmlEvent>,
    cs: Seq<ChildV>,
    k: int,
    acc: Seq<LabelV>,
) -> Result<Seq<LabelV>, DecodeError>
    decreases cs.len() - k,
{
    if k < 0 || k >= cs.len() {
        Ok(acc)
    } else if cs[k].name == crate::names::n_label() {
        match label_spec(cs[k]) {
            Err(e) => Err(e),
            Ok(l) => labels_from(events, cs, k + 1, acc.push(l)),
        }
    } else {
        labels_from(events, cs, k + 1, acc)
    }
}

/// The formats among `cs` from index `k` on; see [`artists_from`].
pub open spec fn formats_from(
    events: Seq<XmlEvent>,
    cs: Seq<ChildV>,
    k: int,
    acc: Seq<FormatV>,
) -> Result<Seq<FormatV>, DecodeError>
    decreases cs.len() - k,
{
    if k < 0 || k >= cs.len() {
        Ok(acc)
    } else if cs[k].name == crate::names::n_format() {
        match format_spec(cs[k]) {
            Err(e) => Err(e),
            Ok(f) => formats_from(events, cs, k + 1, acc.push(f)),
        }
    } else {
        formats_from(events, cs, k + 1, acc)
    }
}

/// The tracks among `cs` from index `k` on; see [`artists_from`].
pub open spec fn tracks_from(
    events: Seq<XmlEvent>,
    cs: Seq<ChildV>,
    k: int,
    acc: Seq<TrackV>,
) -> Result<Seq<TrackV>, DecodeError>
    decreases cs.len() - k,
{
    if k < 0 || k >= cs.len() {
        Ok(acc)
    } else if cs[k].name == crate::names::n_track() {
        match track_spec(events, cs[k]) {
            Err(e) => Err(e),
            Ok(t) => tracks_from(events, cs, k + 1, acc.push(t)),
        }
    } else {
        tracks_from(events, cs, k + 1, acc)
    }
}

/// The videos among `cs` from index `k` on; see [`artists_from`].
pub open spec fn videos_from(
    events: Seq<XmlEvent>,
    cs: Seq<ChildV>,
    k: int,
    acc: Seq<VideoV>,
) -> Result<Seq<VideoV>, DecodeError>
    decreases cs.len() - k,
{
    if k < 0 || k >= cs.len() {
        Ok(acc)
    } else if cs[k].name == crate::names::n_video() {
        match video_spec(events, cs[k]) {
            Err(e) => Err(e),
            Ok(v) => videos_from(events, cs, k + 1, acc.push(v)),
        }
    } else {
        videos_from(events, cs, k + 1, acc)
    }
}

/// The texts of the children named `item` from index `k` on, in order.
pub open spec fn texts_from(
    events: Seq<XmlEvent>,
    cs: Seq<ChildV>,
    item: Seq<u8>,
    k: int,
    acc: Seq<Seq<u8>>,
) -> Result<Seq<Seq<u8>>, DecodeError>
    decreases cs.len() - k,
{
    if k < 0 || k >= cs.len() {
        Ok(acc)
    } else if cs[k].name == item {
        match text_spec(events, cs[k].lo, cs[k].hi) {
            Err(e) => Err(e),
            Ok(t) => texts_from(events, cs, item, k + 1, acc.push(t)),
        }
    } else {
        texts_from(events, cs, item, k + 1, acc)
    }
}

/// Decodes every artist child, exactly as [`artists_from`] says.
fn decode_artists(events: &Vec<XmlEvent>, cs: &Vec<ChildElem>) -> (r: Result<
    Vec<Artist>,
    DecodeError,
>)
    requires
        wf_children(children_view(cs@), events@.len() as int),
    ensures
        r matches Ok(v) ==> artists_from(events@, children_view(cs@), 0, Seq::empty()) == Ok::<
            _,
            DecodeError,
        >(crate::record::views_of(v@)),
        r matches Err(e) ==> artists_from(events@, children_view(cs@), 0, Seq::empty()) == Err::<
            Seq<ArtistV>,
            _,
        >(e),
{
    let ghost cv = children_view(cs@);
    let mut out: Vec<Artist> = Vec::new();
    let mut k: usize = 0;
    proof {
        assert(crate::record::views_of(out@) =~= Seq::<ArtistV>::empty());
    }
    while k < cs.len()
        invariant
            k <= cs@.len(),
            cv == children_view(cs@),
            cv.len() == cs@.len(),
            wf_children(cv, events@.len() as int),
            artists_from(events@, cv, k as int, crate::record::views_of(out@)) == artists_from(
                events@,
                cv,
                0,
                Seq::empty(),
            ),
        decreases cs@.len() - k,
    {
        assert(cv[k as int] == cs@[k as int]@);
        let key = crate::names::k_artist();
        if bytes_is(&cs[k].name, key.as_slice()) {
            match decode_artist(events, &cs[k]) {
                Err(e) => {
                    return Err(e);
                },
                Ok(a) => {
                    let ghost pre = crate::record::views_of(out@);
                    let ghost av = a@;
                    out.push(a);
                    proof {
                        assert(crate::record::views_of(out@) =~= pre.push(av));
                    }
                },
            }
        }
        k += 1;
    }
    Ok(out)
}

/// Decodes every label child, exactly as [`labels_from`] says.
fn decode_labels(events: &Vec<XmlEvent>, cs: &Vec<ChildElem>) -> (r: Result<
    Vec<Label>,
    DecodeError,
>)
    requires
        wf_children(children_view(cs@), events@.len() as int),
    ensures
        r matches Ok(v) ==> labels_from(events@, children_view(cs@), 0, Seq::empty()) == Ok::<
            _,
            DecodeError,
        >(crate::record::views_of(v@)),
        r matches Err(e) ==> labels_from(events@, children_view(cs@), 0, Seq::empty()) == Err::<
            Seq<LabelV>,
            _,
        >(e),
{
    let ghost cv = children_view(cs@);
    let mut out: Vec<Label> = Vec::new();
    let mut k: usize = 0;
    proof {
        assert(crate::record::views_of(out@) =~= Seq::<LabelV>::empty());
    }
    while k < cs.len()
        invariant
            k <= cs@.len(),
            cv == children_view(cs@),
            cv.len() == cs@.len(),
            wf_children(cv, events@.len() as int),
            labels_from(events@, cv, k as int, crate::record::views_of(out@)) == labels_from(
                events@,
                cv,
                0,
                Seq::empty(),
            ),
        decreases cs@.len() - k,
    {
        assert(cv[k as int] == cs@[k as int]@);
        let key = crate::names::k_label();
        if bytes_is(&cs[k].name, key.as_slice()) {
            match decode_label(&cs[k]) {
                Err(e) => {
                    return Err(e);
                },
                Ok(l) => {
                    let ghost pre = crate::record::views_of(out@);
                    let ghost lv = l@;
                    out.push(l);
                    proof {
                        assert(crate::record::views_of(out@) =~= pre.push(lv));
                    }
                },
            }
        }
        k += 1;
    }
    Ok(out)
}

/// Decodes every format child, exactly as [`formats_from`] says.
fn decode_formats(events: &Vec<XmlEvent>, cs: &Vec<ChildElem>) -> (r: Result<
    Vec<Format>,
    DecodeError,
>)
    requires
        wf_children(children_view(cs@), events@.len() as int),
    ensures
        r matches Ok(v) ==> formats_from(events@, children_view(cs@), 0, Seq::empty()) == Ok::<
            _,
            DecodeError,
        >(crate::record::views_of(v@)),
        r matches Err(e) ==> formats_from(events@, children_view(cs@), 0, Seq::empty()) == Err::<
            Seq<FormatV>,
            _,
        >(e),
{
    let ghost cv = children_view(cs@);
    let mut out: Vec<Format> = Vec::new();
    let mut k: usize = 0;
    proof {
        assert(crate::record::views_of(out@) =~= Seq::<FormatV>::empty());
    }
    while k < cs.len()
        invariant
            k <= cs@.len(),
            cv == children_view(cs@),
            cv.len() == cs@.len(),
            wf_children(cv, events@.len() as int),
            formats_from(events@, cv, k as int, crate::record::views_of(out@)) == formats_from(
                events@,
                cv,
                0,
                Seq::empty(),
            ),
        decreases cs@.len() - k,
    {
        assert(cv[k as int] == cs@[k as int]@);
        let key = crate::names::k_format();
        if bytes_is(&cs[k].name, key.as_slice()) {
            match decode_format(&cs[k]) {
                Err(e) => {
                    return Err(e);
                },
                Ok(f) => {
                    let ghost pre = crate::record::views_of(out@);
                    let ghost fv = f@;
                    out.push(f);
                    proof {
                        assert(crate::record::views_of(out@) =~= pre.push(fv));
                    }
                },
            }
        }
        k += 1;
    }
    Ok(out)
}

/// Decodes every track child, exactly as [`tracks_from`] says.
fn decode_tracks(events: &Vec<XmlEvent>, cs: &Vec<ChildElem>) -> (r: Result<
    Vec<Track>,
    DecodeError,
>)
    requires
        wf_children(children_view(cs@), events@.len() as int),
    ensures
        r matches Ok(v) ==> tracks_from(events@, children_view(cs@), 0, Seq::empty()) == Ok::<
            _,
            DecodeError,
        >(crate::record::views_of(v@)),
        r matches Err(e) ==> tracks_from(events@, children_view(cs@), 0, Seq::empty()) == Err::<
            Seq<TrackV>,
            _,
        >(e),
{
    let ghost cv = children_view(cs@);
    let mut out: Vec<Track> = Vec::new();
    let mut k: usize = 0;
    proof {
        assert(crate::record::views_of(out@) =~= Seq::<TrackV>::empty());
    }
    while k < cs.len()
        invariant
            k <= cs@.len(),
            cv == children_view(cs@),
            cv.len() == cs@.len(),
            wf_children(cv, events@.len() as int),
            tracks_from(events@, cv, k as int, crate::record::views_of(out@)) == tracks_from(
                events@,
                cv,
                0,
                Seq::empty(),
            ),
        decreases cs@.len() - k,
    {
        assert(cv[k as int] == cs@[k as int]@);
        let key = crate::names::k_track();
        if bytes_is(&cs[k].name, key.as_slice()) {
            match decode_track(events, &cs[k]) {
                Err(e) => {
                    return Err(e);
                },
                Ok(t) => {
                    let ghost pre = crate::record::views_of(out@);
                    let ghost tv = t@;
                    out.push(t);
                    proof {
                        assert(crate::record::views_of(out@) =~= pre.push(tv));
                    }
                },
            }
        }
        k += 1;
    }
    Ok(out)
}

/// Decodes every video child, exactly as [`videos_from`] says.
fn decode_videos(events: &Vec<XmlEvent>, cs: &Vec<ChildElem>) -> (r: Result<
    Vec<Video>,
    DecodeError,
>)
    requires
        wf_children(children_view(cs@), events@.len() as int),
    ensures
        r matches Ok(v) ==> videos_from(events@, children_view(cs@), 0, Seq::empty()) == Ok::<
            _,
            DecodeError,
        >(crate::record::views_of(v@)),
        r matches Err(e) ==> videos_from(events@, children_view(cs@), 0, Seq::empty()) == Err::<
            Seq<VideoV>,
            _,
        >(e),
{
    let ghost cv = children_view(cs@);
    let mut out: Vec<Video> = Vec::new();
    let mut k: usize = 0;
    proof {
        assert(crate::record::views_of(out@) =~= Seq::<VideoV>::empty());
    }
    while k < cs.len()
        invariant
            k <= cs@.len(),
            cv == children_view(cs@),
            cv.len() == cs@.len(),
            wf_children(cv, events@.len() as int),
            videos_from(events@, cv, k as int, crate::record::views_of(out@)) == videos_from(
                events@,
                cv,
                0,
                Seq::empty(),
            ),
        decreases cs@.len() - k,
    {
        assert(cv[k as int] == cs@[k as int]@);
        let key = crate::names::k_video();
        if bytes_is(&cs[k].name, key.as_slice()) {
            match decode_video(events, &cs[k]) {
                Err(e) => {
                    return Err(e);
                },
                Ok(v) => {
                    let ghost pre = crate::record::views_of(out@);
                    let ghost vv = v@;
                    out.push(v);
                    proof {
                        assert(crate::record::views_of(out@) =~= pre.push(vv));
                    }
                },
            }
        }
        k += 1;
    }
    Ok(out)
}

/// Collects the texts of the children named `item`, exactly as
/// [`texts_from`] says.
fn decode_texts(events: &Vec<XmlEvent>, cs: &Vec<ChildElem>, item: &[u8]) -> (r: Result<
    Vec<Vec<u8>>,
    DecodeError,
>)
    requires
        wf_children(children_view(cs@), events@.len() as int),
    ensures
        r matches Ok(v) ==> texts_from(events@, children_view(cs@), item@, 0, Seq::empty())
            == Ok::<_, DecodeError>(crate::record::bytes_of(v@)),
        r matches Err(e) ==> texts_from(events@, children_view(cs@), item@, 0, Seq::empty())
            == Err::<Seq<Seq<u8>>, _>(e),
{
    let ghost cv = children_view(cs@);
    let mut out: Vec<Vec<u8>> = Vec::new();
    let mut k: usize = 0;
    proof {
        assert(crate::record::bytes_of(out@) =~= Seq::<Seq<u8>>::empty());
    }
    while k < cs.len()
        invariant
            k <= cs@.len(),
            cv == children_view(cs@),
            cv.len() == cs@.len(),
            wf_children(cv, events@.len() as int),
            texts_from(events@, cv, item@, k as int, crate::record::bytes_of(out@)) == texts_from(
                events@,
                cv,
                item@,
                0,
                Seq::empty(),
            ),
        decreases cs@.len() - k,
    {
        assert(cv[k as int] == cs@[k as int]@);
        if bytes_is(&cs[k].name, item) {
            match text_range(events, cs[k].lo, cs[k].hi) {
                Err(e) => {
                    return Err(e);
                },
                Ok(t) => {
                    let ghost pre = crate::record::bytes_of(out@);
                    let ghost tv = t@;
                    out.push(t);
                    proof {
                        assert(crate::record::bytes_of(out@) =~= pre.push(tv));
                    }
                },
            }
        }
        k += 1;
    }
    Ok(out)
}


/// The release's artists: the children of the `artists` container, or empty
/// when the container is absent.
pub open spec fn artists_group_spec(events: Seq<XmlEvent>, cs: Seq<ChildV>) -> Result<
    Seq<ArtistV>,
    DecodeError,
> {
    match find_child_spec(cs, crate::names::n_artists()) {
        None => Ok(Seq::empty()),
        Some(c) => match split_spec(events, c.lo, c.hi) {
            Err(e) => Err(e),
            Ok(inner) => artists_from(events, inner, 0, Seq::empty()),
        },
    }
}

/// The release's labels; see [`artists_group_spec`].
pub open spec fn labels_group_spec(events: Seq<XmlEvent>, cs: Seq<ChildV>) -> Result<
    Seq<LabelV>,
    DecodeError,
> {
    match find_child_spec(cs, crate::names::n_labels()) {
        None => Ok(Seq::empty()),
        Some(c) => match split_spec(events, c.lo, c.hi) {
            Err(e) => Err(e),
            Ok(inner) => labels_from(events, inner, 0, Seq::empty()),
        },
    }
}

/// The release's formats; see [`artists_group_spec`].
pub open spec fn formats_group_spec(events: Seq<XmlEvent>, cs: Seq<ChildV>) -> Result<
    Seq<FormatV>,
    DecodeError,
> {
    match find_child_spec(cs, crate::names::n_formats()) {
        None => Ok(Seq::empty()),
        Some(c) => match split_spec(events, c.lo, c.hi) {
            Err(e) => Err(e),
            Ok(inner) => formats_from(events, inner, 0, Seq::empty()),
        },
    }
}

/// The release's tracklist; see [`artists_group_spec`].
pub open spec fn tracks_group_spec(events: Seq<XmlEvent>, cs: Seq<ChildV>) -> Result<
    Seq<TrackV>,
    DecodeError,
> {
    match find_child_spec(cs, crate::names::n_tracklist()) {
        None => Ok(Seq::empty()),
        Some(c) => match split_spec(events, c.lo, c.hi) {
            Err(e) => Err(e),
            Ok(inner) => tracks_from(events, inner, 0, Seq::empty()),
        },
    }
}

/// The release's genres, tri-state: unset when the `genres` container is
/// absent, else the texts of its `genre` children, possibly none.
pub open spec fn genres_group_spec(events: Seq<XmlEvent>, cs: Seq<ChildV>) -> Result<
    Option<Seq<Seq<u8>>>,
    DecodeError,
> {
    match find_child_spec(cs, crate::names::n_genres()) {
        None => Ok(None),
        Some(c) => match split_spec(events, c.lo, c.hi) {
            Err(e) => Err(e),
            Ok(inner) => match texts_from(events, inner, crate::names::n_genre(), 0, Seq::empty()) {
                Err(e) => Err(e),
                Ok(ts) => Ok(Some(ts)),
            },
        },
    }
}

/// The release's styles, tri-state; see [`genres_group_spec`].
pub open spec fn styles_group_spec(events: Seq<XmlEvent>, cs: Seq<ChildV>) -> Result<
    Option<Seq<Seq<u8>>>,
    DecodeError,
> {
    match find_child_spec(cs, crate::names::n_styles()) {
        None => Ok(None),
        Some(c) => match split_spec(events, c.lo, c.hi) {
            Err(e) => Err(e),
            Ok(inner) => match texts_from(events, inner, crate::names::n_style(), 0, Seq::empty()) {
                Err(e) => Err(e),
                Ok(ts) => Ok(Some(ts)),
            },
        },
    }
}

/// The release's videos, tri-state; see [`genres_group_spec`].
pub open spec fn videos_group_spec(events: Seq<XmlEvent>, cs: Seq<ChildV>) -> Result<
    Option<Seq<VideoV>>,
    DecodeError,
> {
    match find_child_spec(cs, crate::names::n_videos()) {
        None => Ok(None),
        Some(c) => match split_spec(events, c.lo, c.hi) {
            Err(e) => Err(e),
            Ok(inner) => match videos_from(events, inner, 0, Seq::empty()) {
                Err(e) => Err(e),
                Ok(vs) => Ok(Some(vs)),
            },
        },
    }
}

/// The whole release, assembled from the fragment element's attributes and
/// direct children, field by field in declaration order.
pub open spec fn release_spec(
    events: Seq<XmlEvent>,
    attrs: Seq<(Seq<u8>, Seq<u8>)>,
    cs: Seq<ChildV>,
) -> Result<ReleaseV, DecodeError> {
    match req_attr_num_spec(attrs, crate::names::n_id()) {
        Err(e) => Err(e),
        Ok(id) => match req_attr_spec(attrs, crate::names::n_status()) {
            Err(e) => Err(e),
            Ok(status) => match req_text_spec(events, cs, crate::names::n_data_quality()) {
                Err(e) => Err(e),
                Ok(data_quality) => match req_text_spec(events, cs, crate::names::n_title()) {
                    Err(e) => Err(e),
                    Ok(title) => match opt_text_spec(events, cs, crate::names::n_country()) {
                        Err(e) => Err(e),
                        Ok(country) => match opt_text_spec(events, cs, crate::names::n_released()) {
                            Err(e) => Err(e),
                            Ok(date) => match artists_group_spec(events, cs) {
                                Err(e) => Err(e),
                                Ok(artists) => match labels_group_spec(events, cs) {
                                    Err(e) => Err(e),
                                    Ok(labels) => match formats_group_spec(events, cs) {
                                        Err(e) => Err(e),
                                        Ok(formats) => match genres_group_spec(events, cs) {
                                            Err(e) => Err(e),
                                            Ok(genres) => match styles_group_spec(events, cs) {
                                                Err(e) => Err(e),
                                                Ok(styles) => match tracks_group_spec(events, cs) {
                                                    Err(e) => Err(e),
                                                    Ok(tracklist) => match videos_group_spec(
                                                        events,
                                                        cs,
                                                    ) {
                                                        Err(e) => Err(e),
                                                        Ok(videos) => Ok(
                                                            ReleaseV {
                                                                id: id as usize,
                                                                status,
                                                                data_quality,
                                                                title,
                                                                country,
                                                                date,
                                                                artists,
                                                                labels,
                                                                formats,
                                                                genres,
                                                                styles,
                                                                tracklist,
                                                                videos,
                                                            },
                                                        ),
                                                    },
                                                },
                                            },
                                        },
                                    },
                                },
                            },
                        },
                    },
                },
            },
        },
    }
}


/// Decodes the `artists` container, exactly as [`artists_group_spec`] says.
fn artists_group(events: &Vec<XmlEvent>, cs: &Vec<ChildElem>) -> (r: Result<
    Vec<Artist>,
    DecodeError,
>)
    requires
        wf_children(children_view(cs@), events@.len() as int),
    ensures
        r matches Ok(v) ==> artists_group_spec(events@, children_view(cs@)) == Ok::<
            _,
            DecodeError,
        >(crate::record::views_of(v@)),
        r matches Err(e) ==> artists_group_spec(events@, children_view(cs@)) == Err::<
            Seq<ArtistV>,
            _,
        >(e),
{
    proof {
        lemma_find_child_wf(children_view(cs@), crate::names::n_artists(), events@.len() as int);
    }
    let key = crate::names::k_artists();
    match find_child(cs, key.as_slice()) {
        None => {
            let v: Vec<Artist> = Vec::new();
            proof {
                assert(crate::record::views_of(v@) =~= Seq::<ArtistV>::empty());
            }
            Ok(v)
        },
        Some(c) => match split_children(events, c.lo, c.hi) {
            Err(e) => Err(e),
            Ok(inner) => decode_artists(events, &inner),
        },
    }
}

/// Decodes the `labels` container, exactly as [`labels_group_spec`] says.
fn labels_group(events: &Vec<XmlEvent>, cs: &Vec<ChildElem>) -> (r: Result<
    Vec<Label>,
    DecodeError,
>)
    requires
        wf_children(children_view(cs@), events@.len() as int),
    ensures
        r matches Ok(v) ==> labels_group_spec(events@, children_view(cs@)) == Ok::<
            _,
            DecodeError,
        >(crate::record::views_of(v@)),
        r matches Err(e) ==> labels_group_spec(events@, children_view(cs@)) == Err::<
            Seq<LabelV>,
            _,
        >(e),
{
    proof {
        lemma_find_child_wf(children_view(cs@), crate::names::n_labels(), events@.len() as int);
    }
    let key = crate::names::k_labels();
    match find_child(cs, key.as_slice()) {
        None => {
            let v: Vec<Label> = Vec::new();
            proof {
                assert(crate::record::views_of(v@) =~= Seq::<LabelV>::empty());
            }
            Ok(v)
        },
        Some(c) => match split_children(events, c.lo, c.hi) {
            Err(e) => Err(e),
            Ok(inner) => decode_labels(events, &inner),
        },
    }
}

/// Decodes the `formats` container, exactly as [`formats_group_spec`] says.
fn formats_group(events: &Vec<XmlEvent>, cs: &Vec<ChildElem>) -> (r: Result<
    Vec<Format>,
    DecodeError,
>)
    requires
        wf_children(children_view(cs@), events@.len() as int),
    ensures
        r matches Ok(v) ==> formats_group_spec(events@, children_view(cs@)) == Ok::<
            _,
            DecodeError,
        >(crate::record::views_of(v@)),
        r matches Err(e) ==> formats_group_spec(events@, children_view(cs@)) == Err::<
            Seq<FormatV>,
            _,
        >(e),
{
    proof {
        lemma_find_child_wf(children_view(cs@), crate::names::n_formats(), events@.len() as int);
    }
    let key = crate::names::k_formats();
    match find_child(cs, key.as_slice()) {
        None => {
            let v: Vec<Format> = Vec::new();
            proof {
                assert(crate::record::views_of(v@) =~= Seq::<FormatV>::empty());
            }
            Ok(v)
        },
        Some(c) => match split_children(events, c.lo, c.hi) {
            Err(e) => Err(e),
            Ok(inner) => decode_formats(events, &inner),
        },
    }
}

/// Decodes the `tracklist` container, exactly as [`tracks_group_spec`] says.
fn tracks_group(events: &Vec<XmlEvent>, cs: &Vec<ChildElem>) -> (r: Result<
    Vec<Track>,
    DecodeError,
>)
    requires
        wf_children(children_view(cs@), events@.len() as int),
    ensures
        r matches Ok(v) ==> tracks_group_spec(events@, children_view(cs@)) == Ok::<
            _,
            DecodeError,
        >(crate::record::views_of(v@)),
        r matches Err(e) ==> tracks_group_spec(events@, children_view(cs@)) == Err::<
            Seq<TrackV>,
            _,
        >(e),
{
    proof {
        lemma_find_child_wf(children_view(cs@), crate::names::n_tracklist(), events@.len() as int);
    }
    let key = crate::names::k_tracklist();
    match find_child(cs, key.as_slice()) {
        None => {
            let v: Vec<Track> = Vec::new();
            proof {
                assert(crate::record::views_of(v@) =~= Seq::<TrackV>::empty());
            }
            Ok(v)
        },
        Some(c) => match split_children(events, c.lo, c.hi) {
            Err(e) => Err(e),
            Ok(inner) => decode_tracks(events, &inner),
        },
    }
}

/// Decodes the tri-state `genres` group, exactly as [`genres_group_spec`]
/// says.
fn genres_group(events: &Vec<XmlEvent>, cs: &Vec<ChildElem>) -> (r: Result<
    Option<Vec<Vec<u8>>>,
    DecodeError,
>)
    requires
        wf_children(children_view(cs@), events@.len() as int),
    ensures
        r matches Ok(v) ==> genres_group_spec(events@, children_view(cs@)) == Ok::<
            _,
            DecodeError,
        >(match v {
            Some(g) => Some(crate::record::bytes_of(g@)),
            None => None,
        }),
        r matches Err(e) ==> genres_group_spec(events@, children_view(cs@)) == Err::<
            Option<Seq<Seq<u8>>>,
            _,
        >(e),
{
    proof {
        lemma_find_child_wf(children_view(cs@), crate::names::n_genres(), events@.len() as int);
    }
    let key = crate::names::k_genres();
    match find_child(cs, key.as_slice()) {
        None => Ok(None),
        Some(c) => match split_children(events, c.lo, c.hi) {
            Err(e) => Err(e),
            Ok(inner) => {
                let item = crate::names::k_genre();
                match decode_texts(events, &inner, item.as_slice()) {
                    Err(e) => Err(e),
                    Ok(ts) => Ok(Some(ts)),
                }
            },
        },
    }
}

/// Decodes the tri-state `styles` group, exactly as [`styles_group_spec`]
/// says.
fn styles_group(events: &Vec<XmlEvent>, cs: &Vec<ChildElem>) -> (r: Result<
    Option<Vec<Vec<u8>>>,
    DecodeError,
>)
    requires
        wf_children(children_view(cs@), events@.len() as int),
    ensures
        r matches Ok(v) ==> styles_group_spec(events@, children_view(cs@)) == Ok::<
            _,
            DecodeError,
        >(match v {
            Some(s) => Some(crate::record::bytes_of(s@)),
            None => None,
        }),
        r matches Err(e) ==> styles_group_spec(events@, children_view(cs@)) == Err::<
            Option<Seq<Seq<u8>>>,
            _,
        >(e),
{
    proof {
        lemma_find_child_wf(children_view(cs@), crate::names::n_styles(), events@.len() as int);
    }
    let key = crate::names::k_styles();
    match find_child(cs, key.as_slice()) {
        None => Ok(None),
        Some(c) => match split_children(events, c.lo, c.hi) {
            Err(e) => Err(e),
            Ok(inner) => {
                let item = crate::names::k_style();
                match decode_texts(events, &inner, item.as_slice()) {
                    Err(e) => Err(e),
                    Ok(ts) => Ok(Some(ts)),
                }
            },
        },
    }
}

/// Decodes the tri-state `videos` group, exactly as [`videos_group_spec`]
/// says.
fn videos_group(events: &Vec<XmlEvent>, cs: &Vec<ChildElem>) -> (r: Result<
    Option<Vec<Video>>,
    DecodeError,
>)
    requires
        wf_children(children_view(cs@), events@.len() as int),
    ensures
        r matches Ok(v) ==> videos_group_spec(events@, children_view(cs@)) == Ok::<
            _,
            DecodeError,
        >(match v {
            Some(vs) => Some(crate::record::views_of(vs@)),
            None => None,
        }),
        r matches Err(e) ==> videos_group_spec(events@, children_view(cs@)) == Err::<
            Option<Seq<VideoV>>,
            _,
        >(e),
{
    proof {
        lemma_find_child_wf(children_view(cs@), crate::names::n_videos(), events@.len() as int);
    }
    let key = crate::names::k_videos();
    match find_child(cs, key.as_slice()) {
        None => Ok(None),
        Some(c) => match split_children(events, c.lo, c.hi) {
            Err(e) => Err(e),
            Ok(inner) => match decode_videos(events, &inner) {
                Err(e) => Err(e),
                Ok(vs) => Ok(Some(vs)),
            },
        },
    }
}

/// Assembles the release from the fragment element's attributes and direct
/// children, exactly as [`release_spec`] says.
fn decode_release(
    events: &Vec<XmlEvent>,
    attrs: &Vec<(Vec<u8>, Vec<u8>)>,
    cs: &Vec<ChildElem>,
) -> (r: Result<Release, DecodeError>)
    requires
        wf_children(children_view(cs@), events@.len() as int),
    ensures
        res_view(r) == release_spec(events@, attrs_view(attrs@), children_view(cs@)),
{
    let id = match req_attr_num(attrs, crate::names::k_id().as_slice()) {
        Err(e) => {
            return Err(e);
        },
        Ok(v) => v,
    };
    let status = match req_attr(attrs, crate::names::k_status().as_slice()) {
        Err(e) => {
            return Err(e);
        },
        Ok(v) => v,
    };
    let data_quality = match req_text(events, cs, crate::names::k_data_quality().as_slice()) {
        Err(e) => {
            return Err(e);
        },
        Ok(v) => v,
    };
    let title = match req_text(events, cs, crate::names::k_title().as_slice()) {
        Err(e) => {
            return Err(e);
        },
        Ok(v) => v,
    };
    let country = match opt_text(events, cs, crate::names::k_country().as_slice()) {
        Err(e) => {
            return Err(e);
        },
        Ok(v) => v,
    };
    let date = match opt_text(events, cs, crate::names::k_released().as_slice()) {
        Err(e) => {
            return Err(e);
        },
        Ok(v) => v,
    };
    let artists = match artists_group(events, cs) {
        Err(e) => {
            return Err(e);
        },
        Ok(v) => v,
    };
    let labels = match labels_group(events, cs) {
        Err(e) => {
            return Err(e);
        },
        Ok(v) => v,
    };
    let formats = match formats_group(events, cs) {
        Err(e) => {
            return Err(e);
        },
        Ok(v) => v,
    };
    let genres = match genres_group(events, cs) {
        Err(e) => {
            return Err(e);
        },
        Ok(v) => v,
    };
    let styles = match styles_group(events, cs) {
        Err(e) => {
            return Err(e);
        },
        Ok(v) => v,
    };
    let tracklist = match tracks_group(events, cs) {
        Err(e) => {
            return Err(e);
        },
        Ok(v) => v,
    };
    let videos = match videos_group(events, cs) {
        Err(e) => {
            return Err(e);
        },
        Ok(v) => v,
    };
    Ok(
        Release {
            id,
            status,
            data_quality,
            title,
            country,
            date,
            artists,
            labels,
            formats,
            genres,
            styles,
            tracklist,
            videos,
        },
    )
}

/// The release a fragment's event span `[lo, hi)` decodes to: the span must
/// be one element — an opening tag (or a self-closing one) whose matching
/// closing tag ends the span — and its attributes and direct children give
/// the fields.
pub open spec fn decode_record_spec(events: Seq<XmlEvent>, lo: int, hi: int) -> Result<
    ReleaseV,
    DecodeError,
> {
    if 0 <= lo < hi <= events.len() {
        match events[lo] {
            XmlEvent::Empty { attrs, .. } => if hi == lo + 1 {
                release_spec(events, attrs_view(attrs@), Seq::empty())
            } else {
                Err(DecodeError::Malformed)
            },
            XmlEvent::Start { name, attrs, .. } => if crate::events::is_end_named(
                events[hi - 1],
                name@,
            ) {
                match split_spec(events, lo + 1, hi - 1) {
                    Err(e) => Err(e),
                    Ok(cs) => release_spec(events, attrs_view(attrs@), cs),
                }
            } else {
                Err(DecodeError::Malformed)
            },
            _ => Err(DecodeError::Malformed),
        }
    } else {
        Err(DecodeError::Malformed)
    }
}

/// Decodes the fragment whose event span is `[lo, hi)`, exactly as
/// [`decode_record_spec`] says.
pub fn decode_record(events: &Vec<XmlEvent>, lo: usize, hi: usize) -> (r: Result<
    Release,
    DecodeError,
>)
    ensures
        res_view(r) == decode_record_spec(events@, lo as int, hi as int),
{
    if lo >= hi || hi > events.len() {
        return Err(DecodeError::Malformed);
    }
    match &events[lo] {
        XmlEvent::Empty { attrs, .. } => {
            if hi != lo + 1 {
                return Err(DecodeError::Malformed);
            }
            let cs: Vec<ChildElem> = Vec::new();
            proof {
                assert(children_view(cs@) =~= Seq::<ChildV>::empty());
            }
            decode_release(events, attrs, &cs)
        },
        XmlEvent::Start { name, attrs, .. } => {
            let terminated = match &events[hi - 1] {
                XmlEvent::End { name: en, .. } => crate::events::bytes_eq(en, name),
                _ => false,
            };
            if !terminated {
                return Err(DecodeError::Malformed);
            }
            match split_children(events, lo + 1, hi - 1) {
                Err(e) => Err(e),
                Ok(cs) => decode_release(events, attrs, &cs),
            }
        },
        _ => Err(DecodeError::Malformed),
    }
}

/// Decodes one extracted fragment, handed over as raw bytes.
///
/// The bytes are re-read into their event sequence, whose final element is
/// the stream's end marker, and the span before that marker is decoded as
/// one record: the result is exactly what [`decode_record_spec`] says of
/// the bytes' parse.
pub fn decode_fragment(data: &[u8]) -> (r: Result<Release, DecodeError>)
    ensures
        res_view(r) == decode_record_spec(
            crate::events::events_of(data@),
            0,
            crate::events::events_of(data@).len() - 1,
        ),
{
    let events = crate::events::read_document_events(data);
    decode_record(&events, 0, events.len() - 1)
}


/// Law: an absent optional group decodes to the unset state, not to an
/// empty one. When a fragment has no `genres`, `styles` or `videos`
/// container among its children, the decoded release carries `None` for
/// that group — so the writer will skip the group's table entirely.
pub proof fn lemma_absent_group_unset(
    events: Seq<XmlEvent>,
    attrs: Seq<(Seq<u8>, Seq<u8>)>,
    cs: Seq<ChildV>,
    rv: ReleaseV,
)
    requires
        release_spec(events, attrs, cs) == Ok::<ReleaseV, DecodeError>(rv),
    ensures
        find_child_spec(cs, crate::names::n_genres()) is None ==> rv.genres is None,
        find_child_spec(cs, crate::names::n_styles()) is None ==> rv.styles is None,
        find_child_spec(cs, crate::names::n_videos()) is None ==> rv.videos is None,
{
}

} // verus!

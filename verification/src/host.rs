//! The plugin-boundary model of the host's structured values, and the
//! fail-closed decoder from a render record to a layout description.

use vstd::prelude::*;
use crate::errors::{ErrorView, UiError};
use crate::text::str_eq;
use crate::widgets::{LayoutConfig, LayoutView, PaneConfig, PaneView, SizeConfig, SizeView,
    WidgetRef};

verus! {

/// Spec-level form of a host value, with text as character sequences.
pub enum HVal {
    Unit,
    Bool(bool),
    Int(i64),
    Str(Seq<char>),
    Widget(WidgetRef),
    List(Seq<HVal>),
    Record(Seq<(Seq<char>, HVal)>),
}

/// A host-supplied or host-bound structured value, decoded from the host's
/// own value system at the boundary: plain scalars, text, an opaque widget
/// reference, and nestable lists and records.
#[derive(Debug)]
pub enum HostValue {
    Unit,
    Bool(bool),
    Int(i64),
    Str(String),
    Widget(WidgetRef),
    List(Vec<HostValue>),
    Record(Vec<(String, HostValue)>),
}

/// The spec-level value of a host value.
pub open spec fn hval_of(v: HostValue) -> HVal
    decreases v,
{
    match v {
        HostValue::Unit => HVal::Unit,
        HostValue::Bool(b) => HVal::Bool(b),
        HostValue::Int(n) => HVal::Int(n),
        HostValue::Str(s) => HVal::Str(s@),
        HostValue::Widget(w) => HVal::Widget(w),
        HostValue::List(vs) => HVal::List(hvals_of(vs@)),
        HostValue::Record(fs) => HVal::Record(hfields_of(fs@)),
    }
}

/// The spec-level values of a sequence of host values.
pub open spec fn hvals_of(vs: Seq<HostValue>) -> Seq<HVal>
    decreases vs,
{
    if vs.len() == 0 {
        Seq::empty()
    } else {
        seq![hval_of(vs[0])] + hvals_of(vs.drop_first())
    }
}

/// The spec-level fields of a record of host values.
pub open spec fn hfields_of(fs: Seq<(String, HostValue)>) -> Seq<(Seq<char>, HVal)>
    decreases fs,
{
    if fs.len() == 0 {
        Seq::empty()
    } else {
        seq![(fs[0].0@, hval_of(fs[0].1))] + hfields_of(fs.drop_first())
    }
}

/// Element `i` of the spec-level list is the spec-level value of element
/// `i`.
pub proof fn lemma_hvals_of_index(vs: Seq<HostValue>)
    ensures
        hvals_of(vs).len() == vs.len(),
        forall|i: int| 0 <= i < vs.len() ==> hvals_of(vs)[i] == hval_of(vs[i]),
    decreases vs.len(),
{
    if vs.len() > 0 {
        lemma_hvals_of_index(vs.drop_first());
    }
}

/// Field `i` of the spec-level record carries the name and the spec-level
/// value of field `i`.
pub proof fn lemma_hfields_of_index(fs: Seq<(String, HostValue)>)
    ensures
        hfields_of(fs).len() == fs.len(),
        forall|i: int|
            0 <= i < fs.len() ==> hfields_of(fs)[i] == (fs[i].0@, hval_of(fs[i].1)),
    decreases fs.len(),
{
    if fs.len() > 0 {
        lemma_hfields_of_index(fs.drop_first());
    }
}

impl View for HostValue {
    type V = HVal;

    open spec fn view(&self) -> HVal {
        hval_of(*self)
    }
}

/// The first field of the record with the given name, if any.
pub open spec fn spec_record_get(fields: Seq<(String, HostValue)>, name: Seq<char>) -> Option<
    HostValue,
>
    decreases fields.len(),
{
    if fields.len() == 0 {
        None
    } else if fields[0].0@ == name {
        Some(fields[0].1)
    } else {
        spec_record_get(fields.drop_first(), name)
    }
}

/// Looks a field up by name; the first match wins.
pub fn record_get<'a>(fields: &'a Vec<(String, HostValue)>, name: &str) -> (r: Option<
    &'a HostValue,
>)
    ensures
        match r {
            Some(v) => spec_record_get(fields@, name@) == Some(*v),
            None => spec_record_get(fields@, name@) is None,
        },
{
    let mut i: usize = 0;
    proof {
        assert(fields@.skip(0) =~= fields@);
    }
    while i < fields.len()
        invariant
            i <= fields@.len(),
            spec_record_get(fields@, name@) == spec_record_get(
                fields@.skip(i as int),
                name@,
            ),
        decreases fields@.len() - i,
    {
        proof {
            assert(fields@.skip(i as int)[0] == fields@[i as int]);
        }
        if str_eq(fields[i].0.as_str(), name) {
            return Some(&fields[i].1);
        }
        proof {
            assert(fields@.skip(i as int).drop_first() =~= fields@.skip(i as int + 1));
        }
        i = i + 1;
    }
    None
}

fn invalid(field: &str, pane: Option<usize>) -> (r: UiError)
    ensures
        r@ == (ErrorView::InvalidArgument { field: field@, pane }),
{
    UiError::InvalidArgument { field: String::from_str(field), pane }
}

/// What a pane's size field decodes to: an integer within the cell range
/// is a fixed size, the string `"*"` is a fill, and any other string is
/// kept as a percentage, resolved leniently at render time. Anything else
/// fails closed.
pub open spec fn spec_decode_size(v: HostValue) -> Result<SizeView, ()> {
    match v {
        HostValue::Int(n) => if 0 <= n <= 65535 {
            Ok(SizeView::Fixed(n as u16))
        } else {
            Err(())
        },
        HostValue::Str(s) => if s@ == "*"@ {
            Ok(SizeView::Fill)
        } else {
            Ok(SizeView::Percentage(s@))
        },
        _ => Err(()),
    }
}

fn decode_size(v: &HostValue, pane_ix: usize) -> (r: Result<SizeConfig, UiError>)
    ensures
        match r {
            Ok(s) => spec_decode_size(*v) == Ok::<SizeView, ()>(s@),
            Err(e) => spec_decode_size(*v) is Err && e@ == (ErrorView::InvalidArgument {
                field: "size"@,
                pane: Some(pane_ix),
            }),
        },
{
    match v {
        HostValue::Int(n) => {
            if *n >= 0 && *n <= 65535 {
                Ok(SizeConfig::Fixed(*n as u16))
            } else {
                Err(invalid("size", Some(pane_ix)))
            }
        },
        HostValue::Str(s) => {
            if str_eq(s.as_str(), "*") {
                Ok(SizeConfig::Fill)
            } else {
                Ok(SizeConfig::Percentage(s.clone()))
            }
        },
        _ => Err(invalid("size", Some(pane_ix))),
    }
}

/// What one pane record decodes to: it must be a record with a `widget`
/// field holding a widget reference and a `size` field holding a size
/// spec; anything missing or of the wrong shape fails closed, naming the
/// field and the pane's index.
pub open spec fn spec_decode_pane(v: HostValue, ix: usize) -> Result<PaneView, ErrorView> {
    match v {
        HostValue::Record(fields) => match spec_record_get(fields@, "widget"@) {
            Some(HostValue::Widget(w)) => match spec_record_get(fields@, "size"@) {
                Some(sv) => match spec_decode_size(sv) {
                    Ok(size) => Ok(PaneView { widget: w, size }),
                    Err(_) => Err(
                        ErrorView::InvalidArgument { field: "size"@, pane: Some(ix) },
                    ),
                },
                None => Err(ErrorView::InvalidArgument { field: "size"@, pane: Some(ix) }),
            },
            Some(_) => Err(ErrorView::InvalidArgument { field: "widget"@, pane: Some(ix) }),
            None => Err(ErrorView::InvalidArgument { field: "widget"@, pane: Some(ix) }),
        },
        _ => Err(ErrorView::InvalidArgument { field: "pane"@, pane: Some(ix) }),
    }
}

fn decode_pane(v: &HostValue, pane_ix: usize) -> (r: Result<PaneConfig, UiError>)
    ensures
        match r {
            Ok(p) => spec_decode_pane(*v, pane_ix) == Ok::<PaneView, ErrorView>(p@),
            Err(e) => spec_decode_pane(*v, pane_ix) == Err::<PaneView, ErrorView>(e@),
        },
{
    match v {
        HostValue::Record(fields) => match record_get(fields, "widget") {
            Some(wv) => match wv {
                HostValue::Widget(w) => match record_get(fields, "size") {
                    Some(sv) => match decode_size(sv, pane_ix) {
                        Ok(size) => Ok(PaneConfig { widget: *w, size }),
                        Err(e) => Err(e),
                    },
                    None => Err(invalid("size", Some(pane_ix))),
                },
                _ => Err(invalid("widget", Some(pane_ix))),
            },
            None => Err(invalid("widget", Some(pane_ix))),
        },
        _ => Err(invalid("pane", Some(pane_ix))),
    }
}

/// What the panes list decodes to, pane by pane in order; the first
/// failing pane's error wins.
pub open spec fn spec_decode_panes(vs: Seq<HostValue>, i: int) -> Result<Seq<PaneView>, ErrorView>
    decreases i,
{
    if i <= 0 {
        Ok(Seq::empty())
    } else {
        match spec_decode_panes(vs, i - 1) {
            Ok(pre) => match spec_decode_pane(vs[i - 1], (i - 1) as usize) {
                Ok(p) => Ok(pre.push(p)),
                Err(e) => Err(e),
            },
            Err(e) => Err(e),
        }
    }
}

proof fn lemma_decode_panes_error_persists(vs: Seq<HostValue>, j: int, n: int)
    requires
        0 <= j <= n,
        spec_decode_panes(vs, j) is Err,
    ensures
        spec_decode_panes(vs, n) == spec_decode_panes(vs, j),
    decreases n - j,
{
    if j < n {
        lemma_decode_panes_error_persists(vs, j + 1, n);
    }
}

fn decode_panes(vs: &Vec<HostValue>) -> (r: Result<Vec<PaneConfig>, UiError>)
    ensures
        match r {
            Ok(ps) => spec_decode_panes(vs@, vs@.len() as int) == Ok::<
                Seq<PaneView>,
                ErrorView,
            >(ps.deep_view()),
            Err(e) => spec_decode_panes(vs@, vs@.len() as int) == Err::<
                Seq<PaneView>,
                ErrorView,
            >(e@),
        },
{
    let mut out: Vec<PaneConfig> = Vec::new();
    let mut i: usize = 0;
    proof {
        assert(out.deep_view() =~= Seq::<PaneView>::empty());
    }
    while i < vs.len()
        invariant
            i <= vs@.len(),
            spec_decode_panes(vs@, i as int) == Ok::<Seq<PaneView>, ErrorView>(
                out.deep_view(),
            ),
        decreases vs@.len() - i,
    {
        match decode_pane(&vs[i], i) {
            Ok(p) => {
                out.push(p);
                proof {
                    assert(out.deep_view() =~= spec_decode_panes(vs@, i as int)->Ok_0.push(p@));
                }
            },
            Err(e) => {
                proof {
                    lemma_decode_panes_error_persists(vs@, i as int + 1, vs@.len() as int);
                }
                return Err(e);
            },
        }
        i = i + 1;
    }
    Ok(out)
}

/// What the `direction` field decodes to: absent means vertical, a string
/// is taken as given (the layout engine treats anything but
/// `"horizontal"` as vertical), and any other value fails closed.
pub open spec fn spec_decode_direction(lf: Seq<(String, HostValue)>) -> Result<
    Seq<char>,
    ErrorView,
> {
    match spec_record_get(lf, "direction"@) {
        None => Ok("vertical"@),
        Some(HostValue::Str(s)) => Ok(s@),
        Some(_) => Err(ErrorView::InvalidArgument { field: "direction"@, pane: None }),
    }
}

/// What a render record decodes to: its `layout` field must be a record,
/// whose `panes` field must be a list of pane records; the `direction`
/// field is optional. Every missing or ill-shaped required field fails
/// closed, naming the field and, for per-pane fields, the pane index.
pub open spec fn spec_decode_layout(fields: Seq<(String, HostValue)>) -> Result<
    LayoutView,
    ErrorView,
> {
    match spec_record_get(fields, "layout"@) {
        Some(HostValue::Record(lf)) => match spec_decode_direction(lf@) {
            Ok(direction) => match spec_record_get(lf@, "panes"@) {
                Some(HostValue::List(ps)) => match spec_decode_panes(ps@, ps@.len() as int) {
                    Ok(panes) => Ok(LayoutView { direction, panes }),
                    Err(e) => Err(e),
                },
                Some(_) => Err(ErrorView::InvalidArgument { field: "panes"@, pane: None }),
                None => Err(ErrorView::InvalidArgument { field: "panes"@, pane: None }),
            },
            Err(e) => Err(e),
        },
        Some(_) => Err(ErrorView::InvalidArgument { field: "layout"@, pane: None }),
        None => Err(ErrorView::InvalidArgument { field: "layout"@, pane: None }),
    }
}

impl LayoutConfig {
    /// Decodes the fields of the host's render record into a layout
    /// description, failing closed on anything missing or ill-shaped.
    pub fn from_record(fields: &Vec<(String, HostValue)>) -> (r: Result<LayoutConfig, UiError>)
        ensures
            match r {
                Ok(cfg) => spec_decode_layout(fields@) == Ok::<LayoutView, ErrorView>(cfg@),
                Err(e) => spec_decode_layout(fields@) == Err::<LayoutView, ErrorView>(e@),
            },
    {
        match record_get(fields, "layout") {
            Some(lv) => match lv {
                HostValue::Record(lf) => {
                    let direction: String = match record_get(lf, "direction") {
                        None => String::from_str("vertical"),
                        Some(dv) => match dv {
                            HostValue::Str(s) => s.clone(),
                            _ => {
                                return Err(invalid("direction", None));
                            },
                        },
                    };
                    match record_get(lf, "panes") {
                        Some(pv) => match pv {
                            HostValue::List(ps) => match decode_panes(ps) {
                                Ok(panes) => Ok(LayoutConfig { direction, panes }),
                                Err(e) => Err(e),
                            },
                            _ => Err(invalid("panes", None)),
                        },
                        None => Err(invalid("panes", None)),
                    }
                },
                _ => Err(invalid("layout", None)),
            },
            None => Err(invalid("layout", None)),
        }
    }
}

} // verus!

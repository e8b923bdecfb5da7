//! Widget definitions, the opaque reference handle, layout descriptions
//! and size specs, including the lenient percentage parser.

use vstd::prelude::*;

verus! {

/// An opaque, cloneable handle naming a stored widget. It carries only the
/// identity; the definition itself stays in the registry.
#[derive(Clone, Copy, PartialEq, Eq, Structural, Debug)]
pub struct WidgetRef {
    pub id: u64,
}

/// Spec-level form of a widget definition, with text as character
/// sequences.
pub enum WidgetView {
    List {
        items: Seq<Seq<char>>,
        selected: Option<usize>,
        scrollable: bool,
        title: Option<Seq<char>>,
    },
    Text { content: Seq<char>, wrap: bool, scrollable: bool, title: Option<Seq<char>> },
}

/// A widget definition: the tagged variant over the supported kinds.
/// Owned exclusively by the registry; commands always create a fresh
/// definition, there is no in-place edit.
#[derive(Clone, Debug)]
pub enum WidgetConfig {
    List {
        items: Vec<String>,
        selected: Option<usize>,
        scrollable: bool,
        title: Option<String>,
    },
    Text { content: String, wrap: bool, scrollable: bool, title: Option<String> },
}

impl View for WidgetConfig {
    type V = WidgetView;

    open spec fn view(&self) -> WidgetView {
        match self {
            WidgetConfig::List { items, selected, scrollable, title } => WidgetView::List {
                items: items.deep_view(),
                selected: *selected,
                scrollable: *scrollable,
                title: title.deep_view(),
            },
            WidgetConfig::Text { content, wrap, scrollable, title } => WidgetView::Text {
                content: content@,
                wrap: *wrap,
                scrollable: *scrollable,
                title: title.deep_view(),
            },
        }
    }
}

fn clone_string_vec(v: &Vec<String>) -> (r: Vec<String>)
    ensures
        r.deep_view() == v.deep_view(),
{
    let r = v.clone();
    proof {
        assert forall|i: int| 0 <= i < v@.len() implies r@[i]@ == v@[i]@ by {
            assert(vstd::pervasive::cloned::<String>(v@[i], r@[i]));
        }
        assert(r.deep_view() =~= v.deep_view());
    }
    r
}

fn clone_opt_string(v: &Option<String>) -> (r: Option<String>)
    ensures
        r.deep_view() == v.deep_view(),
{
    match v {
        Some(s) => Some(s.clone()),
        None => None,
    }
}

impl WidgetConfig {
    /// An owned copy of the definition, field for field.
    pub fn duplicate(&self) -> (r: WidgetConfig)
        ensures
            r@ == self@,
    {
        match self {
            WidgetConfig::List { items, selected, scrollable, title } => WidgetConfig::List {
                items: clone_string_vec(items),
                selected: *selected,
                scrollable: *scrollable,
                title: clone_opt_string(title),
            },
            WidgetConfig::Text { content, wrap, scrollable, title } => WidgetConfig::Text {
                content: content.clone(),
                wrap: *wrap,
                scrollable: *scrollable,
                title: clone_opt_string(title),
            },
        }
    }
}

/// Spec-level form of a size spec.
pub enum SizeView {
    Percentage(Seq<char>),
    Fixed(u16),
    Fill,
}

/// How one pane sizes itself along the split axis: a percentage of the
/// surface's extent (kept as the raw string, resolved leniently at render
/// time), an exact cell count, or an equal share of the space left over.
#[derive(Clone, Debug)]
pub enum SizeConfig {
    Percentage(String),
    Fixed(u16),
    Fill,
}

impl View for SizeConfig {
    type V = SizeView;

    open spec fn view(&self) -> SizeView {
        match self {
            SizeConfig::Percentage(s) => SizeView::Percentage(s@),
            SizeConfig::Fixed(n) => SizeView::Fixed(*n),
            SizeConfig::Fill => SizeView::Fill,
        }
    }
}

/// Spec-level form of one pane of a layout.
pub struct PaneView {
    pub widget: WidgetRef,
    pub size: SizeView,
}

/// One region of a layout, assigned to exactly one widget.
#[derive(Clone, Debug)]
pub struct PaneConfig {
    pub widget: WidgetRef,
    pub size: SizeConfig,
}

impl View for PaneConfig {
    type V = PaneView;

    open spec fn view(&self) -> PaneView {
        PaneView { widget: self.widget, size: self.size@ }
    }
}

/// Spec-level form of a layout description.
pub struct LayoutView {
    pub direction: Seq<char>,
    pub panes: Seq<PaneView>,
}

/// A layout description: a split direction (the string `"horizontal"` or
/// `"vertical"`; anything else falls back to vertical) and an ordered list
/// of panes. Constructed fresh for each render call; never persisted.
#[derive(Clone, Debug)]
pub struct LayoutConfig {
    pub direction: String,
    pub panes: Vec<PaneConfig>,
}

impl View for LayoutConfig {
    type V = LayoutView;

    open spec fn view(&self) -> LayoutView {
        LayoutView { direction: self.direction@, panes: self.panes.deep_view() }
    }
}

impl DeepView for PaneConfig {
    type V = PaneView;

    open spec fn deep_view(&self) -> PaneView {
        self@
    }
}

/// Whether the character is a decimal digit.
pub open spec fn is_ascii_digit(c: char) -> bool {
    48 <= c as int && c as int <= 57
}

/// The numeric value of the character as a decimal digit.
pub open spec fn digit_val(c: char) -> int {
    c as int - 48
}

/// Whether every character of the sequence is a decimal digit.
pub open spec fn all_digits(s: Seq<char>) -> bool {
    forall|i: int| 0 <= i < s.len() ==> is_ascii_digit(#[trigger] s[i])
}

/// The numeric value of a sequence of decimal digits, most significant
/// first.
pub open spec fn digits_value(s: Seq<char>) -> int
    decreases s.len(),
{
    if s.len() == 0 {
        0
    } else {
        digits_value(s.drop_last()) * 10 + digit_val(s.last())
    }
}

/// A percentage string is well formed when it is one or more decimal
/// digits followed by `'%'` and its value is at most one hundred.
pub open spec fn well_formed_percentage(s: Seq<char>) -> bool {
    &&& s.len() >= 2
    &&& s.last() == '%'
    &&& all_digits(s.drop_last())
    &&& digits_value(s.drop_last()) <= 100
}

/// What a percentage string resolves to: its digits' value when well
/// formed, and the default of fifty otherwise. Malformed input is
/// recovered with the default rather than failing the render: a deliberate
/// leniency policy.
pub open spec fn percentage_value(s: Seq<char>) -> int {
    if well_formed_percentage(s) {
        digits_value(s.drop_last())
    } else {
        50
    }
}

proof fn lemma_digits_value_nonneg(s: Seq<char>)
    requires
        all_digits(s),
    ensures
        digits_value(s) >= 0,
    decreases s.len(),
{
    if s.len() > 0 {
        assert(all_digits(s.drop_last()));
        lemma_digits_value_nonneg(s.drop_last());
    }
}

/// A percentage string always resolves to a value between zero and one
/// hundred.
pub proof fn lemma_percentage_value_range(s: Seq<char>)
    ensures
        0 <= percentage_value(s) <= 100,
{
    if well_formed_percentage(s) {
        lemma_digits_value_nonneg(s.drop_last());
    }
}

proof fn lemma_digits_value_step(s: Seq<char>, i: int)
    requires
        0 <= i < s.len(),
    ensures
        digits_value(s.take(i + 1)) == digits_value(s.take(i)) * 10 + digit_val(s[i]),
{
    assert(s.take(i + 1).drop_last() =~= s.take(i));
    assert(s.take(i + 1).last() == s[i]);
}

proof fn lemma_digits_value_prefix_le(s: Seq<char>, i: int)
    requires
        all_digits(s),
        0 <= i <= s.len(),
    ensures
        digits_value(s.take(i)) <= digits_value(s),
    decreases s.len() - i,
{
    if i == s.len() {
        assert(s.take(i) =~= s);
    } else {
        lemma_digits_value_step(s, i);
        assert(all_digits(s.take(i))) by {
            assert(forall|j: int| 0 <= j < i ==> s.take(i)[j] == s[j]);
        }
        lemma_digits_value_nonneg(s.take(i));
        lemma_digits_value_prefix_le(s, i + 1);
    }
}

/// Resolves a percentage string: `"30%"` gives 30; anything malformed or
/// out of range gives the default of fifty.
pub fn parse_percentage(s: &str) -> (r: u16)
    ensures
        r as int == percentage_value(s@),
        r <= 100,
{
    let n = s.unicode_len();
    if n < 2 {
        return 50;
    }
    if s.get_char(n - 1) != '%' {
        return 50;
    }
    let body = n - 1;
    proof {
        assert(s@.take(body as int) =~= s@.drop_last());
    }
    let mut i: usize = 0;
    while i < body
        invariant
            i <= body,
            body == n - 1,
            n == s@.len(),
            n >= 2,
            forall|j: int| 0 <= j < i ==> is_ascii_digit(#[trigger] s@[j]),
        decreases body - i,
    {
        let c = s.get_char(i);
        let cu = c as u32;
        if cu < 48 || cu > 57 {
            proof {
                assert(!is_ascii_digit(s@[i as int]));
                assert(s@.drop_last()[i as int] == s@[i as int]);
                assert(!all_digits(s@.drop_last()));
            }
            return 50;
        }
        i = i + 1;
    }
    proof {
        assert(all_digits(s@.drop_last())) by {
            assert(forall|j: int| 0 <= j < body ==> s@.drop_last()[j] == s@[j]);
        }
    }
    let mut value: u32 = 0;
    let mut k: usize = 0;
    while k < body
        invariant
            k <= body,
            body == n - 1,
            n == s@.len(),
            n >= 2,
            s@.last() == '%',
            all_digits(s@.drop_last()),
            value <= 100,
            value as int == digits_value(s@.take(k as int)),
        decreases body - k,
    {
        let c = s.get_char(k);
        proof {
            assert(is_ascii_digit(s@[k as int])) by {
                assert(s@.drop_last()[k as int] == s@[k as int]);
            }
            lemma_digits_value_step(s@, k as int);
        }
        let d = c as u32 - 48;
        if value * 10 + d > 100 {
            proof {
                lemma_digits_value_prefix_le(s@.drop_last(), k as int + 1);
                assert(s@.drop_last().take(k as int + 1) =~= s@.take(k as int + 1));
                assert(digits_value(s@.drop_last()) > 100);
            }
            return 50;
        }
        value = value * 10 + d;
        k = k + 1;
    }
    proof {
        assert(s@.take(body as int) =~= s@.drop_last());
        assert(well_formed_percentage(s@));
    }
    value as u16
}

} // verus!

//! Resolution of page-configuration directives: an ordered stack of
//! override layers applied to the ambient page style, plus the structural
//! commands handed to the layout engine.
//!
//! The resolver is pure: it reads a snapshot of the current style and the
//! directive's already-typed arguments and returns a new style together
//! with the diagnostics it collected. A bad or unknown argument never
//! aborts resolution; it is recorded and the remaining layers still apply.

use vstd::prelude::*;
use vstd::string::StringExecFns;

use crate::geom::{Linear, Sides, Size};

verus! {

/// Classification of a page size: a named preset family, or custom
/// dimensions that match no preset.
#[derive(Clone, Copy, Debug, PartialEq, Eq, Hash)]
pub enum PaperClass {
    /// Dimensions that belong to no named preset.
    Custom,
    /// The ISO base series (A4 and its relatives).
    Base,
    /// North-American office formats.
    US,
    /// Newspaper formats.
    Newspaper,
    /// Book formats.
    Book,
}

/// An already-resolved paper preset: its class and its size. Looking a
/// preset up by name is the paper database's business, not this module's.
#[derive(Clone, Copy, Debug, PartialEq, Eq, Hash)]
pub struct Paper {
    /// The preset's class.
    pub class: PaperClass,
    /// The preset's size.
    pub size: Size,
}

/// The ambient page configuration: created once per document context and
/// replaced, never mutated in place, each time a page directive resolves.
#[derive(Clone, Copy, Debug, PartialEq, Eq, Hash)]
pub struct PageStyle {
    /// The classification of the page size.
    pub class: PaperClass,
    /// The page size.
    pub size: Size,
    /// The page margins, each side optional; `None` leaves the side to the
    /// engine's default.
    pub margins: Sides<Option<Linear>>,
}

/// A typed keyword-argument value, as the argument extraction layer hands
/// it over.
#[derive(Clone, Copy, Debug, PartialEq, Eq)]
pub enum ArgValue {
    /// An absolute length.
    Length(i64),
    /// A length with a component relative to a side of the page.
    Relative(Linear),
    /// A boolean flag.
    Bool(bool),
    /// A plain number without a unit.
    Int(i64),
}

/// The arguments of a page directive: an optional positional paper preset,
/// already resolved against the paper database by the caller, and the
/// keyword arguments in declaration order. The keyword list is a
/// dictionary: when a name occurs twice, only its first entry counts.
#[derive(Clone, Debug, PartialEq, Eq)]
pub struct Args {
    /// The positional paper preset, if one was given.
    pub paper: Option<Paper>,
    /// The keyword arguments, in declaration order.
    pub keys: Vec<(String, ArgValue)>,
}

/// A non-fatal issue found while resolving directive arguments.
#[derive(Clone, Debug, PartialEq, Eq)]
pub enum Diagnostic {
    /// A keyword argument that no override layer recognizes.
    UnexpectedKey(String),
    /// A recognized keyword argument whose value has the wrong type; the
    /// layer then behaves as if the argument were absent.
    TypeMismatch(String),
    /// A positional argument where none is expected.
    UnexpectedPositional,
}

/// The spec-level shape of a diagnostic, with the key name as a character
/// sequence.
pub enum DiagnosticModel {
    /// Models `Diagnostic::UnexpectedKey`.
    UnexpectedKey(Seq<char>),
    /// Models `Diagnostic::TypeMismatch`.
    TypeMismatch(Seq<char>),
    /// Models `Diagnostic::UnexpectedPositional`.
    UnexpectedPositional,
}

impl View for Diagnostic {
    type V = DiagnosticModel;

    open spec fn view(&self) -> DiagnosticModel {
        match self {
            Diagnostic::UnexpectedKey(k) => DiagnosticModel::UnexpectedKey(k@),
            Diagnostic::TypeMismatch(k) => DiagnosticModel::TypeMismatch(k@),
            Diagnostic::UnexpectedPositional => DiagnosticModel::UnexpectedPositional,
        }
    }
}

/// The models of a sequence of diagnostics.
pub open spec fn views_of(diags: Seq<Diagnostic>) -> Seq<DiagnosticModel> {
    diags.map_values(|d: Diagnostic| d@)
}

/// A structural command for the surrounding layout engine.
#[derive(Clone, Debug, PartialEq, Eq)]
pub enum Command {
    /// Replace the ambient page style.
    SetPageStyle(PageStyle),
    /// End the current page.
    BreakPage,
}

/// The outcome of a directive: the commands to apply and the diagnostics
/// collected along the way.
#[derive(Clone, Debug, PartialEq, Eq)]
pub struct Pass {
    /// The commands for the engine, in order.
    pub commands: Vec<Command>,
    /// The diagnostics, in the order they were found.
    pub feedback: Vec<Diagnostic>,
}

/// The value of the first keyword entry named `name`, if any.
pub open spec fn lookup(keys: Seq<(String, ArgValue)>, name: Seq<char>) -> Option<ArgValue>
    decreases keys.len(),
{
    if keys.len() == 0 {
        None
    } else if keys[0].0@ == name {
        Some(keys[0].1)
    } else {
        lookup(keys.drop_first(), name)
    }
}

/// Coerce a value to an absolute length.
pub open spec fn as_length(v: ArgValue) -> Option<i64> {
    match v {
        ArgValue::Length(n) => Some(n),
        _ => None,
    }
}

/// Coerce a value to a linear length; an absolute length counts, with no
/// relative component.
pub open spec fn as_linear(v: ArgValue) -> Option<Linear> {
    match v {
        ArgValue::Length(n) => Some(Linear { abs: n, rel: 0 }),
        ArgValue::Relative(l) => Some(l),
        _ => None,
    }
}

/// Coerce a value to a boolean.
pub open spec fn as_bool(v: ArgValue) -> Option<bool> {
    match v {
        ArgValue::Bool(b) => Some(b),
        _ => None,
    }
}

/// The absolute length under `name`, if present and well-typed.
pub open spec fn length_arg(keys: Seq<(String, ArgValue)>, name: Seq<char>) -> Option<i64> {
    match lookup(keys, name) {
        Some(v) => as_length(v),
        None => None,
    }
}

/// The linear length under `name`, if present and well-typed.
pub open spec fn linear_arg(keys: Seq<(String, ArgValue)>, name: Seq<char>) -> Option<Linear> {
    match lookup(keys, name) {
        Some(v) => as_linear(v),
        None => None,
    }
}

/// The boolean under `name`, if present and well-typed.
pub open spec fn bool_arg(keys: Seq<(String, ArgValue)>, name: Seq<char>) -> Option<bool> {
    match lookup(keys, name) {
        Some(v) => as_bool(v),
        None => None,
    }
}

/// Whether the final size is flipped: the `flip` flag if present and
/// well-typed, and false otherwise.
pub open spec fn flip_arg(keys: Seq<(String, ArgValue)>) -> bool {
    match bool_arg(keys, "flip"@) {
        Some(b) => b,
        None => false,
    }
}

/// Whether some override layer recognizes the keyword `name`.
pub open spec fn is_page_key(name: Seq<char>) -> bool {
    ||| name == "width"@
    ||| name == "height"@
    ||| name == "margins"@
    ||| name == "left"@
    ||| name == "top"@
    ||| name == "right"@
    ||| name == "bottom"@
    ||| name == "flip"@
}

/// The class after resolution: custom as soon as an explicit width or
/// height overrides the size, else the preset's class, else unchanged.
pub open spec fn resolved_class(
    style: PageStyle,
    paper: Option<Paper>,
    keys: Seq<(String, ArgValue)>,
) -> PaperClass {
    if length_arg(keys, "width"@) is Some || length_arg(keys, "height"@) is Some {
        PaperClass::Custom
    } else {
        match paper {
            Some(p) => p.class,
            None => style.class,
        }
    }
}

/// The width before the flip layer: an explicit width, else the preset's,
/// else unchanged.
pub open spec fn base_width(
    style: PageStyle,
    paper: Option<Paper>,
    keys: Seq<(String, ArgValue)>,
) -> i64 {
    match length_arg(keys, "width"@) {
        Some(w) => w,
        None => match paper {
            Some(p) => p.size.width,
            None => style.size.width,
        },
    }
}

/// The height before the flip layer: an explicit height, else the
/// preset's, else unchanged.
pub open spec fn base_height(
    style: PageStyle,
    paper: Option<Paper>,
    keys: Seq<(String, ArgValue)>,
) -> i64 {
    match length_arg(keys, "height"@) {
        Some(h) => h,
        None => match paper {
            Some(p) => p.size.height,
            None => style.size.height,
        },
    }
}

/// The size after resolution: the flip layer, applied last, swaps whatever
/// width and height the earlier layers produced.
pub open spec fn resolved_size(
    style: PageStyle,
    paper: Option<Paper>,
    keys: Seq<(String, ArgValue)>,
) -> Size {
    let w = base_width(style, paper, keys);
    let h = base_height(style, paper, keys);
    if flip_arg(keys) {
        Size { width: h, height: w }
    } else {
        Size { width: w, height: h }
    }
}

/// One side of the margins after resolution: the side's own override wins,
/// else the uniform value, else the side is unchanged.
pub open spec fn side_margin(
    current: Option<Linear>,
    uniform: Option<Linear>,
    side: Option<Linear>,
) -> Option<Linear> {
    match side {
        Some(l) => Some(l),
        None => match uniform {
            Some(m) => Some(m),
            None => current,
        },
    }
}

/// The margins after resolution. The uniform layer replaces all four
/// sides; each per-side layer then overwrites only its own side, so an
/// explicit side always wins over the uniform value, whatever the
/// declaration order of the two keywords.
pub open spec fn resolved_margins(
    style: PageStyle,
    keys: Seq<(String, ArgValue)>,
) -> Sides<Option<Linear>> {
    let uniform = linear_arg(keys, "margins"@);
    Sides {
        left: side_margin(style.margins.left, uniform, linear_arg(keys, "left"@)),
        top: side_margin(style.margins.top, uniform, linear_arg(keys, "top"@)),
        right: side_margin(style.margins.right, uniform, linear_arg(keys, "right"@)),
        bottom: side_margin(style.margins.bottom, uniform, linear_arg(keys, "bottom"@)),
    }
}

/// The page style after all override layers, in their fixed order: paper
/// preset, width, height, uniform margins, the four sides, flip.
pub open spec fn resolve_spec(
    style: PageStyle,
    paper: Option<Paper>,
    keys: Seq<(String, ArgValue)>,
) -> PageStyle {
    PageStyle {
        class: resolved_class(style, paper, keys),
        size: resolved_size(style, paper, keys),
        margins: resolved_margins(style, keys),
    }
}

/// One mismatch diagnostic when `name` is present but its value is no
/// absolute length.
pub open spec fn length_mismatch(keys: Seq<(String, ArgValue)>, name: Seq<char>) -> Seq<
    DiagnosticModel,
> {
    match lookup(keys, name) {
        Some(v) => if as_length(v) is None {
            seq![DiagnosticModel::TypeMismatch(name)]
        } else {
            Seq::empty()
        },
        None => Seq::empty(),
    }
}

/// One mismatch diagnostic when `name` is present but its value is no
/// linear length.
pub open spec fn linear_mismatch(keys: Seq<(String, ArgValue)>, name: Seq<char>) -> Seq<
    DiagnosticModel,
> {
    match lookup(keys, name) {
        Some(v) => if as_linear(v) is None {
            seq![DiagnosticModel::TypeMismatch(name)]
        } else {
            Seq::empty()
        },
        None => Seq::empty(),
    }
}

/// One mismatch diagnostic when `name` is present but its value is no
/// boolean.
pub open spec fn bool_mismatch(keys: Seq<(String, ArgValue)>, name: Seq<char>) -> Seq<
    DiagnosticModel,
> {
    match lookup(keys, name) {
        Some(v) => if as_bool(v) is None {
            seq![DiagnosticModel::TypeMismatch(name)]
        } else {
            Seq::empty()
        },
        None => Seq::empty(),
    }
}

/// The mismatch diagnostics of a page directive, in the order the layers
/// examine their keywords.
pub open spec fn mismatch_diags(keys: Seq<(String, ArgValue)>) -> Seq<DiagnosticModel> {
    length_mismatch(keys, "width"@) + length_mismatch(keys, "height"@) + linear_mismatch(
        keys,
        "margins"@,
    ) + linear_mismatch(keys, "left"@) + linear_mismatch(keys, "top"@) + linear_mismatch(
        keys,
        "right"@,
    ) + linear_mismatch(keys, "bottom"@) + bool_mismatch(keys, "flip"@)
}

/// One diagnostic per keyword that no layer recognizes, in declaration
/// order.
pub open spec fn unexpected_diags(keys: Seq<(String, ArgValue)>) -> Seq<DiagnosticModel>
    decreases keys.len(),
{
    if keys.len() == 0 {
        Seq::empty()
    } else {
        let head = if is_page_key(keys[0].0@) {
            Seq::<DiagnosticModel>::empty()
        } else {
            seq![DiagnosticModel::UnexpectedKey(keys[0].0@)]
        };
        head + unexpected_diags(keys.drop_first())
    }
}

/// All diagnostics of a page directive: first the type mismatches, in
/// layer order, then the unrecognized keywords, in declaration order.
pub open spec fn page_diags(keys: Seq<(String, ArgValue)>) -> Seq<DiagnosticModel> {
    mismatch_diags(keys) + unexpected_diags(keys)
}

/// The diagnostic for a positional argument where none is expected.
pub open spec fn positional_diags(paper: Option<Paper>) -> Seq<DiagnosticModel> {
    match paper {
        Some(_) => seq![DiagnosticModel::UnexpectedPositional],
        None => Seq::empty(),
    }
}

/// All diagnostics of a page-break directive, which recognizes no
/// argument at all: one per positional, then one per keyword.
pub open spec fn pagebreak_diags(
    paper: Option<Paper>,
    keys: Seq<(String, ArgValue)>,
) -> Seq<DiagnosticModel> {
    positional_diags(paper) + keys.map_values(
        |kv: (String, ArgValue)| DiagnosticModel::UnexpectedKey(kv.0@),
    )
}

proof fn lemma_lookup_at(keys: Seq<(String, ArgValue)>, name: Seq<char>, i: int)
    requires
        0 <= i < keys.len(),
        keys[i].0@ == name,
        forall|j: int| 0 <= j < i ==> #[trigger] keys[j].0@ != name,
    ensures
        lookup(keys, name) == Some(keys[i].1),
    decreases i,
{
    if i > 0 {
        lemma_lookup_at(keys.drop_first(), name, i - 1);
    }
}

proof fn lemma_lookup_absent(keys: Seq<(String, ArgValue)>, name: Seq<char>)
    requires
        forall|j: int| 0 <= j < keys.len() ==> #[trigger] keys[j].0@ != name,
    ensures
        lookup(keys, name) is None,
    decreases keys.len(),
{
    if keys.len() > 0 {
        lemma_lookup_absent(keys.drop_first(), name);
    }
}

/// The first keyword entry named `name`, scanning in declaration order.
fn find_arg(keys: &Vec<(String, ArgValue)>, name: &String) -> (r: Option<ArgValue>)
    ensures
        r == lookup(keys@, name@),
{
    let mut i: usize = 0;
    while i < keys.len()
        invariant
            i <= keys@.len(),
            forall|j: int| 0 <= j < i ==> #[trigger] keys@[j].0@ != name@,
        decreases keys@.len() - i,
    {
        if keys[i].0 == *name {
            proof {
                lemma_lookup_at(keys@, name@, i as int);
            }
            return Some(keys[i].1);
        }
        i += 1;
    }
    proof {
        lemma_lookup_absent(keys@, name@);
    }
    None
}

/// The absolute length under `name`, recording a mismatch diagnostic when
/// the keyword is present with a value of the wrong type.
fn take_length(keys: &Vec<(String, ArgValue)>, name: &String, f: &mut Vec<Diagnostic>) -> (r:
    Option<i64>)
    ensures
        r == length_arg(keys@, name@),
        views_of(final(f)@) == views_of(old(f)@) + length_mismatch(keys@, name@),
{
    let r = match find_arg(keys, name) {
        Some(ArgValue::Length(n)) => Some(n),
        Some(_) => {
            f.push(Diagnostic::TypeMismatch(name.clone()));
            None
        },
        None => None,
    };
    proof {
        assert(views_of(f@) =~= views_of(old(f)@) + length_mismatch(keys@, name@));
    }
    r
}

/// The linear length under `name`, recording a mismatch diagnostic when
/// the keyword is present with a value of the wrong type.
fn take_linear(keys: &Vec<(String, ArgValue)>, name: &String, f: &mut Vec<Diagnostic>) -> (r:
    Option<Linear>)
    ensures
        r == linear_arg(keys@, name@),
        views_of(final(f)@) == views_of(old(f)@) + linear_mismatch(keys@, name@),
{
    let r = match find_arg(keys, name) {
        Some(ArgValue::Length(n)) => Some(Linear::absolute(n)),
        Some(ArgValue::Relative(l)) => Some(l),
        Some(_) => {
            f.push(Diagnostic::TypeMismatch(name.clone()));
            None
        },
        None => None,
    };
    proof {
        assert(views_of(f@) =~= views_of(old(f)@) + linear_mismatch(keys@, name@));
    }
    r
}

/// The boolean under `name`, recording a mismatch diagnostic when the
/// keyword is present with a value of the wrong type.
fn take_bool(keys: &Vec<(String, ArgValue)>, name: &String, f: &mut Vec<Diagnostic>) -> (r: Option<
    bool,
>)
    ensures
        r == bool_arg(keys@, name@),
        views_of(final(f)@) == views_of(old(f)@) + bool_mismatch(keys@, name@),
{
    let r = match find_arg(keys, name) {
        Some(ArgValue::Bool(b)) => Some(b),
        Some(_) => {
            f.push(Diagnostic::TypeMismatch(name.clone()));
            None
        },
        None => None,
    };
    proof {
        assert(views_of(f@) =~= views_of(old(f)@) + bool_mismatch(keys@, name@));
    }
    r
}

/// Whether some override layer recognizes the keyword `name`.
fn key_recognized(name: &String) -> (b: bool)
    ensures
        b == is_page_key(name@),
{
    *name == String::from_str("width") || *name == String::from_str("height") || *name
        == String::from_str("margins") || *name == String::from_str("left") || *name
        == String::from_str("top") || *name == String::from_str("right") || *name
        == String::from_str("bottom") || *name == String::from_str("flip")
}

proof fn lemma_unexpected_push(keys: Seq<(String, ArgValue)>, kv: (String, ArgValue))
    ensures
        unexpected_diags(keys.push(kv)) == unexpected_diags(keys) + (if is_page_key(kv.0@) {
            Seq::<DiagnosticModel>::empty()
        } else {
            seq![DiagnosticModel::UnexpectedKey(kv.0@)]
        }),
    decreases keys.len(),
{
    let s = keys.push(kv);
    let tail = if is_page_key(kv.0@) {
        Seq::<DiagnosticModel>::empty()
    } else {
        seq![DiagnosticModel::UnexpectedKey(kv.0@)]
    };
    if keys.len() == 0 {
        assert(s[0] == kv);
        assert(s.drop_first() =~= Seq::<(String, ArgValue)>::empty());
        assert(unexpected_diags(Seq::<(String, ArgValue)>::empty())
            == Seq::<DiagnosticModel>::empty());
        assert(unexpected_diags(s) =~= unexpected_diags(keys) + tail);
    } else {
        assert(s[0] == keys[0]);
        assert(s.drop_first() =~= keys.drop_first().push(kv));
        lemma_unexpected_push(keys.drop_first(), kv);
        assert(unexpected_diags(s.drop_first()) == unexpected_diags(keys.drop_first()) + tail);
        assert(unexpected_diags(s) =~= unexpected_diags(keys) + tail);
    }
}

/// Append one diagnostic per unrecognized keyword, in declaration order.
fn report_unexpected(keys: &Vec<(String, ArgValue)>, f: &mut Vec<Diagnostic>)
    ensures
        views_of(final(f)@) == views_of(old(f)@) + unexpected_diags(keys@),
{
    let mut i: usize = 0;
    proof {
        assert(keys@.take(0) =~= Seq::<(String, ArgValue)>::empty());
        assert(views_of(f@) =~= views_of(f@) + unexpected_diags(keys@.take(0)));
    }
    while i < keys.len()
        invariant
            i <= keys@.len(),
            views_of(f@) == views_of(old(f)@) + unexpected_diags(keys@.take(i as int)),
        decreases keys@.len() - i,
    {
        let recognized = key_recognized(&keys[i].0);
        proof {
            assert(keys@.take(i + 1) =~= keys@.take(i as int).push(keys@[i as int]));
            lemma_unexpected_push(keys@.take(i as int), keys@[i as int]);
        }
        if !recognized {
            let d = Diagnostic::UnexpectedKey(keys[i].0.clone());
            proof {
                assert(d@ == DiagnosticModel::UnexpectedKey(keys@[i as int].0@));
            }
            let ghost before = f@;
            f.push(d);
            proof {
                assert(views_of(f@) =~= views_of(before).push(d@));
                assert(views_of(f@) =~= views_of(old(f)@) + unexpected_diags(keys@.take(i + 1)));
            }
        } else {
            proof {
                assert(views_of(f@) =~= views_of(old(f)@) + unexpected_diags(keys@.take(i + 1)));
            }
        }
        i += 1;
    }
    proof {
        assert(keys@.take(keys@.len() as int) =~= keys@);
    }
}

/// Apply the override layers, in their fixed order, to a snapshot of the
/// current page style: paper preset, width, height, uniform margins, the
/// four per-side margins, flip. A value that is absent leaves its field
/// untouched; a bad or unknown argument is recorded as a diagnostic and
/// the remaining layers still apply.
pub fn resolve(style: &PageStyle, args: &Args) -> (r: (PageStyle, Vec<Diagnostic>))
    ensures
        r.0 == resolve_spec(*style, args.paper, args.keys@),
        views_of(r.1@) == page_diags(args.keys@),
{
    let mut f: Vec<Diagnostic> = Vec::new();
    let keys = &args.keys;
    let width = take_length(keys, &String::from_str("width"), &mut f);
    let height = take_length(keys, &String::from_str("height"), &mut f);
    let margins = take_linear(keys, &String::from_str("margins"), &mut f);
    let left = take_linear(keys, &String::from_str("left"), &mut f);
    let top = take_linear(keys, &String::from_str("top"), &mut f);
    let right = take_linear(keys, &String::from_str("right"), &mut f);
    let bottom = take_linear(keys, &String::from_str("bottom"), &mut f);
    let flip = take_bool(keys, &String::from_str("flip"), &mut f);
    proof {
        assert(views_of(f@) =~= mismatch_diags(keys@));
    }
    report_unexpected(keys, &mut f);
    proof {
        assert(views_of(f@) =~= page_diags(keys@));
    }

    let mut style = *style;
    match args.paper {
        Some(paper) => {
            style.class = paper.class;
            style.size = paper.size;
        },
        None => {},
    }
    match width {
        Some(width) => {
            style.class = PaperClass::Custom;
            style.size.width = width;
        },
        None => {},
    }
    match height {
        Some(height) => {
            style.class = PaperClass::Custom;
            style.size.height = height;
        },
        None => {},
    }
    match margins {
        Some(margins) => {
            style.margins = Sides::uniform(Some(margins));
        },
        None => {},
    }
    match left {
        Some(left) => {
            style.margins.left = Some(left);
        },
        None => {},
    }
    match top {
        Some(top) => {
            style.margins.top = Some(top);
        },
        None => {},
    }
    match right {
        Some(right) => {
            style.margins.right = Some(right);
        },
        None => {},
    }
    match bottom {
        Some(bottom) => {
            style.margins.bottom = Some(bottom);
        },
        None => {},
    }
    let flipped = match flip {
        Some(b) => b,
        None => false,
    };
    if flipped {
        let w = style.size.width;
        style.size.width = style.size.height;
        style.size.height = w;
    }
    (style, f)
}

/// `page`: configure pages. Resolves the directive's arguments over the
/// current style and emits exactly one command replacing the ambient page
/// style, whatever diagnostics were collected.
pub fn page(style: &PageStyle, args: &Args) -> (p: Pass)
    ensures
        p.commands@ == seq![
            Command::SetPageStyle(resolve_spec(*style, args.paper, args.keys@)),
        ],
        views_of(p.feedback@) == page_diags(args.keys@),
{
    let (new_style, f) = resolve(style, args);
    let mut commands: Vec<Command> = Vec::new();
    commands.push(Command::SetPageStyle(new_style));
    proof {
        assert(commands@ =~= seq![
            Command::SetPageStyle(resolve_spec(*style, args.paper, args.keys@)),
        ]);
    }
    Pass { commands, feedback: f }
}

/// `pagebreak`: ends the current page. Emits exactly one break command;
/// the directive recognizes no argument, so every argument present is
/// reported, and none of them ever suppresses the command.
pub fn pagebreak(args: &Args) -> (p: Pass)
    ensures
        p.commands@ == seq![Command::BreakPage],
        views_of(p.feedback@) == pagebreak_diags(args.paper, args.keys@),
{
    let mut f: Vec<Diagnostic> = Vec::new();
    match args.paper {
        Some(_) => {
            f.push(Diagnostic::UnexpectedPositional);
        },
        None => {},
    }
    proof {
        assert(views_of(f@) =~= positional_diags(args.paper));
    }
    let keys = &args.keys;
    let mut i: usize = 0;
    while i < keys.len()
        invariant
            i <= keys@.len(),
            views_of(f@) == positional_diags(args.paper) + keys@.take(i as int).map_values(
                |kv: (String, ArgValue)| DiagnosticModel::UnexpectedKey(kv.0@),
            ),
        decreases keys@.len() - i,
    {
        let d = Diagnostic::UnexpectedKey(keys[i].0.clone());
        proof {
            assert(d@ == DiagnosticModel::UnexpectedKey(keys@[i as int].0@));
        }
        let ghost before = f@;
        f.push(d);
        proof {
            assert(views_of(f@) =~= views_of(before).push(d@));
            assert(views_of(f@) =~= positional_diags(args.paper) + keys@.take(i + 1).map_values(
                |kv: (String, ArgValue)| DiagnosticModel::UnexpectedKey(kv.0@),
            ));
        }
        i += 1;
    }
    proof {
        assert(keys@.take(keys@.len() as int) =~= keys@);
        assert(views_of(f@) =~= pagebreak_diags(args.paper, args.keys@));
    }
    let mut commands: Vec<Command> = Vec::new();
    commands.push(Command::BreakPage);
    proof {
        assert(commands@ =~= seq![Command::BreakPage]);
    }
    Pass { commands, feedback: f }
}

/// Law: with no overrides present at all, resolution returns the input
/// style unchanged and produces no diagnostics.
pub proof fn lemma_resolve_identity(style: PageStyle)
    ensures
        resolve_spec(style, None, Seq::empty()) == style,
        page_diags(Seq::empty()) == Seq::<DiagnosticModel>::empty(),
{
    assert(page_diags(Seq::empty()) =~= Seq::<DiagnosticModel>::empty());
}

/// Law: a paper preset alone sets the class and the whole size from the
/// preset and leaves the margins unchanged.
pub proof fn lemma_paper_preset(style: PageStyle, p: Paper)
    ensures
        resolve_spec(style, Some(p), Seq::empty()) == (PageStyle {
            class: p.class,
            size: p.size,
            margins: style.margins,
        }),
{
}

/// Law: an explicit width on top of a paper preset overwrites only the
/// width; the height keeps the preset's value and the class becomes
/// custom.
pub proof fn lemma_width_after_paper(
    style: PageStyle,
    p: Paper,
    keys: Seq<(String, ArgValue)>,
    w: i64,
)
    requires
        length_arg(keys, "width"@) == Some(w),
        length_arg(keys, "height"@) is None,
        !flip_arg(keys),
    ensures
        resolve_spec(style, Some(p), keys).size == (Size { width: w, height: p.size.height }),
        resolve_spec(style, Some(p), keys).class == PaperClass::Custom,
{
}

/// Law: an explicit side margin wins over the uniform margin, whatever
/// the declaration order of the two keywords; the other three sides keep
/// the uniform value. Layer order, not input order, decides.
pub proof fn lemma_margin_precedence(
    style: PageStyle,
    paper: Option<Paper>,
    keys: Seq<(String, ArgValue)>,
    m: Linear,
    l: Linear,
)
    requires
        linear_arg(keys, "margins"@) == Some(m),
        linear_arg(keys, "left"@) == Some(l),
        linear_arg(keys, "top"@) is None,
        linear_arg(keys, "right"@) is None,
        linear_arg(keys, "bottom"@) is None,
    ensures
        resolve_spec(style, paper, keys).margins == (Sides {
            left: Some(l),
            top: Some(m),
            right: Some(m),
            bottom: Some(m),
        }),
{
}

/// Law: the flip layer comes last, so it swaps whatever width and height
/// the earlier layers produced.
pub proof fn lemma_flip_last(
    style: PageStyle,
    paper: Option<Paper>,
    keys: Seq<(String, ArgValue)>,
    w: i64,
    h: i64,
)
    requires
        length_arg(keys, "width"@) == Some(w),
        length_arg(keys, "height"@) == Some(h),
        flip_arg(keys),
    ensures
        resolve_spec(style, paper, keys).size == (Size { width: h, height: w }),
        resolve_spec(style, paper, keys).class == PaperClass::Custom,
{
}

proof fn lemma_unexpected_contains(keys: Seq<(String, ArgValue)>, i: int)
    requires
        0 <= i < keys.len(),
        !is_page_key(keys[i].0@),
    ensures
        unexpected_diags(keys).contains(DiagnosticModel::UnexpectedKey(keys[i].0@)),
    decreases i,
{
    if i == 0 {
        assert(unexpected_diags(keys)[0] == DiagnosticModel::UnexpectedKey(keys[0].0@));
    } else {
        lemma_unexpected_contains(keys.drop_first(), i - 1);
        let target = DiagnosticModel::UnexpectedKey(keys[i].0@);
        let j = choose|j: int|
            0 <= j < unexpected_diags(keys.drop_first()).len() && unexpected_diags(
                keys.drop_first(),
            )[j] == target;
        let head = if is_page_key(keys[0].0@) {
            Seq::<DiagnosticModel>::empty()
        } else {
            seq![DiagnosticModel::UnexpectedKey(keys[0].0@)]
        };
        assert(unexpected_diags(keys)[head.len() + j] == target);
    }
}

/// Law: an unrecognized keyword is reported among the directive's
/// diagnostics. The resolved style and the emitted command are untouched
/// by it: `resolve_spec` reads only the recognized keywords, and `page`
/// emits its command unconditionally.
pub proof fn lemma_unexpected_reported(keys: Seq<(String, ArgValue)>, i: int)
    requires
        0 <= i < keys.len(),
        !is_page_key(keys[i].0@),
    ensures
        page_diags(keys).contains(DiagnosticModel::UnexpectedKey(keys[i].0@)),
{
    lemma_unexpected_contains(keys, i);
    let target = DiagnosticModel::UnexpectedKey(keys[i].0@);
    let j = choose|j: int|
        0 <= j < unexpected_diags(keys).len() && unexpected_diags(keys)[j] == target;
    assert(page_diags(keys)[mismatch_diags(keys).len() + j] == target);
}

proof fn lemma_lookup_remove(keys: Seq<(String, ArgValue)>, name: Seq<char>, i: int)
    requires
        0 <= i < keys.len(),
        keys[i].0@ != name,
    ensures
        lookup(keys.remove(i), name) == lookup(keys, name),
    decreases keys.len(),
{
    if i == 0 {
        assert(keys.remove(0) =~= keys.drop_first());
    } else {
        assert(keys.remove(i)[0] == keys[0]);
        if keys[0].0@ != name {
            assert(keys.remove(i).drop_first() =~= keys.drop_first().remove(i - 1));
            lemma_lookup_remove(keys.drop_first(), name, i - 1);
        }
    }
}

/// Law: dropping an unrecognized keyword leaves the resolved style as it
/// was; only the recognized keywords reach the layers.
pub proof fn lemma_unknown_key_inert(
    style: PageStyle,
    paper: Option<Paper>,
    keys: Seq<(String, ArgValue)>,
    i: int,
)
    requires
        0 <= i < keys.len(),
        !is_page_key(keys[i].0@),
    ensures
        resolve_spec(style, paper, keys.remove(i)) == resolve_spec(style, paper, keys),
{
    lemma_lookup_remove(keys, "width"@, i);
    lemma_lookup_remove(keys, "height"@, i);
    lemma_lookup_remove(keys, "margins"@, i);
    lemma_lookup_remove(keys, "left"@, i);
    lemma_lookup_remove(keys, "top"@, i);
    lemma_lookup_remove(keys, "right"@, i);
    lemma_lookup_remove(keys, "bottom"@, i);
    lemma_lookup_remove(keys, "flip"@, i);
}

/// Law: a page break with no arguments at all produces no diagnostics;
/// its command is owed unconditionally by `pagebreak` itself.
pub proof fn lemma_pagebreak_clean()
    ensures
        pagebreak_diags(None, Seq::empty()) == Seq::<DiagnosticModel>::empty(),
{
    assert(pagebreak_diags(None, Seq::empty()) =~= Seq::<DiagnosticModel>::empty());
}

} // verus!

//! The validators: each compares one category of the document against
//! the spec and yields error records.

pub mod bullet;
pub mod char_shape;
pub mod hyperlink;
pub mod macro_;
pub mod numbering;
pub mod outline_shape;
pub mod para_num_bullet;
pub mod para_shape;
pub mod special_character;
pub mod style;
pub mod table;
pub mod table_detail;

use vstd::prelude::*;
use crate::document::header::types::{Bullet, CharShape};
use crate::document::run_type::{run_views, RunTypeInfo, RunView};
use crate::document::section::derefs;
use crate::document::Document;
use crate::error::DvcResult;
use crate::messages::{english_message, english_of};
use crate::spec::DvcSpec;
use self::bullet::{bullet_allow_list, bullet_seq_errors, enumerates};
use self::char_shape::{apply_level, shapes_violations, violations_on_runs};
use self::hyperlink::hyperlink_errors;
use self::macro_::macro_errors;
use self::outline_shape::outline_errors;
use self::para_num_bullet::para_num_errors;
use self::para_shape::para_shape_errors;
use self::special_character::special_errors;
use self::style::style_errors;
use self::table::table_errors;

verus! {

/// One validation finding.
#[derive(Debug, Default, Clone)]
pub struct DvcErrorInfo {
    pub char_pr_id_ref: u32,
    pub para_pr_id_ref: u32,
    pub text: String,
    pub page_no: u32,
    pub line_no: u32,
    pub error_code: u32,
    pub table_id: u32,
    pub is_in_table: bool,
    pub is_in_table_in_table: bool,
    pub table_row: u32,
    pub table_col: u32,
    pub is_in_shape: bool,
    pub use_hyperlink: bool,
    pub use_style: bool,
    pub error_string: String,
}

/// A finding with its strings taken as characters.
pub struct ErrorView {
    pub char_pr_id_ref: u32,
    pub para_pr_id_ref: u32,
    pub text: Seq<char>,
    pub page_no: u32,
    pub line_no: u32,
    pub error_code: u32,
    pub table_id: u32,
    pub is_in_table: bool,
    pub is_in_table_in_table: bool,
    pub table_row: u32,
    pub table_col: u32,
    pub is_in_shape: bool,
    pub use_hyperlink: bool,
    pub use_style: bool,
    pub error_string: Seq<char>,
}

impl View for DvcErrorInfo {
    type V = ErrorView;

    open spec fn view(&self) -> ErrorView {
        ErrorView {
            char_pr_id_ref: self.char_pr_id_ref,
            para_pr_id_ref: self.para_pr_id_ref,
            text: self.text@,
            page_no: self.page_no,
            line_no: self.line_no,
            error_code: self.error_code,
            table_id: self.table_id,
            is_in_table: self.is_in_table,
            is_in_table_in_table: self.is_in_table_in_table,
            table_row: self.table_row,
            table_col: self.table_col,
            is_in_shape: self.is_in_shape,
            use_hyperlink: self.use_hyperlink,
            use_style: self.use_style,
            error_string: self.error_string@,
        }
    }
}

/// The views of a sequence of findings.
pub open spec fn error_views(v: Seq<DvcErrorInfo>) -> Seq<ErrorView> {
    v.map_values(|e: DvcErrorInfo| e@)
}

/// The finding for run `r`, with the given code, flags and message.
pub open spec fn run_error(
    r: RunView,
    code: u32,
    use_hyperlink: bool,
    use_style: bool,
    msg: Seq<char>,
) -> ErrorView {
    ErrorView {
        char_pr_id_ref: r.char_pr_id_ref,
        para_pr_id_ref: r.para_pr_id_ref,
        text: r.text,
        page_no: r.page_no,
        line_no: r.line_no,
        error_code: code,
        table_id: r.table_id,
        is_in_table: r.is_in_table,
        is_in_table_in_table: r.is_in_table_in_table,
        table_row: r.table_row,
        table_col: r.table_col,
        is_in_shape: r.is_in_shape,
        use_hyperlink,
        use_style,
        error_string: msg,
    }
}

/// A finding tied to no run: every field but the code, table identity
/// and message is zero, false or empty.
pub open spec fn located_error(
    code: u32,
    table_id: u32,
    is_in_table: bool,
    is_in_table_in_table: bool,
    row: u32,
    col: u32,
    msg: Seq<char>,
) -> ErrorView {
    ErrorView {
        char_pr_id_ref: 0,
        para_pr_id_ref: 0,
        text: Seq::empty(),
        page_no: 0,
        line_no: 0,
        error_code: code,
        table_id,
        is_in_table,
        is_in_table_in_table,
        table_row: row,
        table_col: col,
        is_in_shape: false,
        use_hyperlink: false,
        use_style: false,
        error_string: msg,
    }
}

/// Build the finding for a run.
pub fn error_from_run(
    r: &RunTypeInfo,
    code: u32,
    use_hyperlink: bool,
    use_style: bool,
    msg: String,
) -> (e: DvcErrorInfo)
    ensures
        e@ == run_error(r@, code, use_hyperlink, use_style, msg@),
{
    DvcErrorInfo {
        char_pr_id_ref: r.char_pr_id_ref,
        para_pr_id_ref: r.para_pr_id_ref,
        text: r.text.clone(),
        page_no: r.page_no,
        line_no: r.line_no,
        error_code: code,
        table_id: r.table_id,
        is_in_table: r.is_in_table,
        is_in_table_in_table: r.is_in_table_in_table,
        table_row: r.table_row,
        table_col: r.table_col,
        is_in_shape: r.is_in_shape,
        use_hyperlink,
        use_style,
        error_string: msg,
    }
}

/// Build a finding tied to a table or cell rather than a run.
pub fn located(
    code: u32,
    table_id: u32,
    is_in_table: bool,
    is_in_table_in_table: bool,
    row: u32,
    col: u32,
    msg: String,
) -> (e: DvcErrorInfo)
    ensures
        e@ == located_error(code, table_id, is_in_table, is_in_table_in_table, row, col, msg@),
{
    DvcErrorInfo {
        char_pr_id_ref: 0,
        para_pr_id_ref: 0,
        text: String::new(),
        page_no: 0,
        line_no: 0,
        error_code: code,
        table_id,
        is_in_table,
        is_in_table_in_table,
        table_row: row,
        table_col: col,
        is_in_shape: false,
        use_hyperlink: false,
        use_style: false,
        error_string: msg,
    }
}

/// Pushing a finding extends the views by its view.
pub proof fn lemma_error_views_push(v: Seq<DvcErrorInfo>, e: DvcErrorInfo)
    ensures
        error_views(v.push(e)) == error_views(v).push(e@),
{
    assert(error_views(v.push(e)) =~= error_views(v).push(e@));
}

/// Appending findings extends the views by their views.
pub proof fn lemma_error_views_add(v: Seq<DvcErrorInfo>, w: Seq<DvcErrorInfo>)
    ensures
        error_views(v + w) == error_views(v) + error_views(w),
{
    assert(error_views(v + w) =~= error_views(v) + error_views(w));
}

/// The views of a prefix one longer.
pub proof fn lemma_run_views_take(v: Seq<RunTypeInfo>, i: int)
    requires
        0 <= i < v.len(),
    ensures
        crate::document::run_type::run_views(v.take(i + 1)) == crate::document::run_type::run_views(
            v.take(i),
        ).push(v[i]@),
        crate::document::run_type::run_views(v.take(i + 1)).drop_last()
            == crate::document::run_type::run_views(v.take(i)),
        crate::document::run_type::run_views(v.take(i + 1)).last() == v[i]@,
{
    assert(crate::document::run_type::run_views(v.take(i + 1))
        =~= crate::document::run_type::run_views(v.take(i)).push(v[i]@));
}

/// Whether some run of `rs` belongs to paragraph shape `id`.
pub open spec fn seen_para(rs: Seq<RunView>, id: u32) -> bool {
    exists|j: int| 0 <= j < rs.len() && (#[trigger] rs[j]).para_pr_id_ref == id
}

/// The first run of each distinct paragraph shape, in stream order.
pub open spec fn first_runs(rs: Seq<RunView>) -> Seq<RunView>
    decreases rs.len(),
{
    if rs.len() == 0 {
        Seq::empty()
    } else if seen_para(rs.drop_last(), rs.last().para_pr_id_ref) {
        first_runs(rs.drop_last())
    } else {
        first_runs(rs.drop_last()).push(rs.last())
    }
}

/// The first run of each distinct paragraph shape, in stream order.
pub fn representative_runs(runs: &[RunTypeInfo]) -> (r: Vec<&RunTypeInfo>)
    ensures
        run_views(derefs(r@)) == first_runs(run_views(runs@)),
{
    let mut out: Vec<&RunTypeInfo> = Vec::new();
    let mut seen: Vec<u32> = Vec::new();
    let mut i: usize = 0;
    assert(run_views(derefs(out@)) =~= first_runs(run_views(runs@.take(0))));
    while i < runs.len()
        invariant
            i <= runs@.len(),
            run_views(derefs(out@)) == first_runs(run_views(runs@.take(i as int))),
            forall|id: u32| seen@.contains(id) <==> seen_para(run_views(runs@.take(i as int)), id),
        decreases runs.len() - i,
    {
        let run = &runs[i];
        proof {
            lemma_run_views_take(runs@, i as int);
        }
        let ghost rv = run_views(runs@.take(i + 1));
        let ghost prev = run_views(runs@.take(i as int));
        let ghost seen0 = seen@;
        let mut found = false;
        let mut j: usize = 0;
        while j < seen.len()
            invariant
                j <= seen@.len(),
                found <==> exists|m: int| 0 <= m < j && seen@[m] == run.para_pr_id_ref,
            decreases seen.len() - j,
        {
            if seen[j] == run.para_pr_id_ref {
                found = true;
            }
            j = j + 1;
        }
        proof {
            assert(found <==> seen@.contains(run.para_pr_id_ref));
            assert(rv.drop_last() == prev);
            assert(rv.last() == run@);
            assert forall|id: u32| seen_para(rv, id) <==> (seen_para(prev, id) || run.para_pr_id_ref == id) by {
                if seen_para(rv, id) {
                    let m = choose|m: int| 0 <= m < rv.len() && (#[trigger] rv[m]).para_pr_id_ref == id;
                    if m < prev.len() {
                        assert(prev[m] == rv[m]);
                    }
                }
                if seen_para(prev, id) {
                    let m = choose|m: int| 0 <= m < prev.len() && (#[trigger] prev[m]).para_pr_id_ref == id;
                    assert(rv[m] == prev[m]);
                }
                if run.para_pr_id_ref == id {
                    assert(rv[prev.len() as int] == run@);
                }
            }
        }
        if !found {
            proof {
                assert(run_views(derefs(out@.push(run))) =~= run_views(derefs(out@)).push(run@));
            }
            out.push(run);
            let ghost old_seen = seen@;
            seen.push(run.para_pr_id_ref);
            proof {
                assert forall|id: u32| seen@.contains(id) <==> (old_seen.contains(id) || id
                    == run.para_pr_id_ref) by {
                    if old_seen.contains(id) {
                        let m = choose|m: int| 0 <= m < old_seen.len() && old_seen[m] == id;
                        assert(seen@[m] == id);
                    }
                    if id == run.para_pr_id_ref {
                        assert(seen@[old_seen.len() as int] == id);
                    }
                    if seen@.contains(id) {
                        let m = choose|m: int| 0 <= m < seen@.len() && seen@[m] == id;
                        if m < old_seen.len() {
                            assert(old_seen[m] == id);
                        }
                    }
                }
            }
        }
        proof {
            assert forall|id: u32| seen@.contains(id) <==> seen_para(rv, id) by {
                assert(seen0.contains(id) <==> seen_para(prev, id));
                assert(seen_para(rv, id) <==> (seen_para(prev, id) || run.para_pr_id_ref == id));
            }
        }
        i = i + 1;
    }
    assert(runs@.take(runs@.len() as int) =~= runs@);
    out
}

/// The findings for run `r`, one per code, with the run's own flags and
/// each code's message.
pub open spec fn code_errors(r: RunView, codes: Seq<u32>) -> Seq<ErrorView> {
    codes.map_values(
        |c: u32| run_error(r, c, r.is_hyperlink, r.is_style, crate::messages::plain_message(c)),
    )
}

/// Append one finding per code for `run`.
pub fn push_code_errors(run: &RunTypeInfo, codes: &Vec<u32>, errors: &mut Vec<DvcErrorInfo>)
    ensures
        error_views(final(errors)@) == error_views(old(errors)@) + code_errors(run@, codes@),
{
    let ghost start = error_views(errors@);
    let mut i: usize = 0;
    assert(code_errors(run@, codes@.take(0)) =~= Seq::<ErrorView>::empty());
    assert(start + Seq::<ErrorView>::empty() =~= start);
    while i < codes.len()
        invariant
            i <= codes@.len(),
            error_views(errors@) == start + code_errors(run@, codes@.take(i as int)),
        decreases codes.len() - i,
    {
        let e = error_from_run(
            run,
            codes[i],
            run.is_hyperlink,
            run.is_style,
            crate::messages::error_string(codes[i], crate::messages::ErrorContext::none()),
        );
        proof {
            lemma_error_views_push(errors@, e);
            assert(code_errors(run@, codes@.take(i + 1)) =~= code_errors(run@, codes@.take(i as int)).push(e@));
        }
        errors.push(e);
        i = i + 1;
    }
    assert(codes@.take(codes@.len() as int) =~= codes@);
}

/// Whether `v` holds `x`.
pub fn vec_contains_u32(v: &Vec<u32>, x: u32) -> (r: bool)
    ensures
        r == v@.contains(x),
{
    let mut i: usize = 0;
    while i < v.len()
        invariant
            i <= v@.len(),
            forall|j: int| 0 <= j < i ==> v@[j] != x,
        decreases v.len() - i,
    {
        if v[i] == x {
            assert(v@[i as int] == x);
            return true;
        }
        i = i + 1;
    }
    false
}

/// Validation level.
#[derive(Debug, Clone, Copy, Default, PartialEq, Eq, Structural)]
pub enum CheckLevel {
    /// Stop at the first detected error.
    Simple,
    /// Report every error found.
    #[default]
    All,
}

/// Output scope toggles. With none set, every category is reported.
#[derive(Debug, Clone, Copy, Default, PartialEq, Eq, Structural)]
pub struct OutputScope {
    pub all: bool,
    pub table: bool,
    pub table_detail: bool,
    pub shape: bool,
    pub style: bool,
    pub hyperlink: bool,
}

/// The category a validator reports under.
#[derive(Debug, Clone, Copy, PartialEq, Eq, Structural)]
pub enum ScopeCategory {
    /// Character and paragraph shapes.
    Shape,
    Table,
    Style,
    Hyperlink,
    /// Validators with no scope flag of their own.
    Ungated,
}

/// No scope flag is set.
pub open spec fn scope_is_default(s: OutputScope) -> bool {
    !s.all && !s.table && !s.table_detail && !s.shape && !s.style && !s.hyperlink
}

/// Whether findings of `c` are reported under scope `s`.
pub open spec fn scope_allows(s: OutputScope, c: ScopeCategory) -> bool {
    if scope_is_default(s) || s.all {
        true
    } else {
        match c {
            ScopeCategory::Shape => s.shape,
            ScopeCategory::Table => s.table || s.table_detail,
            ScopeCategory::Style => s.style,
            ScopeCategory::Hyperlink => s.hyperlink,
            ScopeCategory::Ungated => true,
        }
    }
}

impl OutputScope {
    /// Whether no scope flag is set.
    pub fn is_default(&self) -> (r: bool)
        ensures
            r == scope_is_default(*self),
    {
        !self.all && !self.table && !self.table_detail && !self.shape && !self.style
            && !self.hyperlink
    }

    /// Whether findings of `category` are reported.
    pub fn allows(&self, category: ScopeCategory) -> (r: bool)
        ensures
            r == scope_allows(*self, category),
    {
        if self.is_default() || self.all {
            return true;
        }
        match category {
            ScopeCategory::Shape => self.shape,
            ScopeCategory::Table => self.table || self.table_detail,
            ScopeCategory::Style => self.style,
            ScopeCategory::Hyperlink => self.hyperlink,
            ScopeCategory::Ungated => true,
        }
    }
}


/// The validation run: a spec, a parsed document, a level and a scope.
#[derive(Debug)]
pub struct Checker<'a> {
    pub spec: &'a DvcSpec,
    pub document: &'a Document,
    pub level: CheckLevel,
    pub scope: OutputScope,
}

/// The findings of one validator when its category is in scope and the
/// spec has its rules; none otherwise.
pub open spec fn gated<T>(on: bool, rules: Option<T>, found: spec_fn(T) -> Seq<ErrorView>) -> Seq<
    ErrorView,
> {
    if on && rules is Some {
        found(rules->0)
    } else {
        Seq::empty()
    }
}

/// The character-shape findings, given the order in which the shape
/// table is walked.
pub open spec fn char_shape_part(
    spec: DvcSpec,
    doc: Document,
    level: CheckLevel,
    scope: OutputScope,
    shapes: Seq<(u32, CharShape)>,
) -> Seq<ErrorView> {
    if scope_allows(scope, ScopeCategory::Shape) && doc.header is Some && spec.charshape is Some {
        apply_level(
            violations_on_runs(
                shapes_violations(shapes, spec.charshape->0, doc.header->0.font_faces@),
                run_views(doc.run_type_infos@),
            ),
            level,
        )
    } else {
        Seq::empty()
    }
}

/// The bullet findings, given the order in which the bullet table is
/// walked.
pub open spec fn bullet_part(
    spec: DvcSpec,
    doc: Document,
    scope: OutputScope,
    bullets: Seq<(u32, Bullet)>,
) -> Seq<ErrorView> {
    if scope_allows(scope, ScopeCategory::Ungated) && spec.bullet is Some && doc.header is Some
        && bullet_allow_list(spec.bullet->0) is Some {
        bullet_seq_errors(bullets, bullet_allow_list(spec.bullet->0)->0)
    } else {
        Seq::empty()
    }
}

/// All findings of a run, validator by validator in a fixed order:
/// hyperlink, style, macro, special characters, character shapes,
/// paragraph shapes, tables, outline shapes, bullets, paragraph
/// numbering. `shapes` and `bullets` are the orders in which the
/// character-shape and bullet tables are walked.
pub open spec fn run_errors(
    spec: DvcSpec,
    doc: Document,
    level: CheckLevel,
    scope: OutputScope,
    shapes: Seq<(u32, CharShape)>,
    bullets: Seq<(u32, Bullet)>,
) -> Seq<ErrorView> {
    let rv = run_views(doc.run_type_infos@);
    gated(
        scope_allows(scope, ScopeCategory::Hyperlink),
        spec.hyperlink,
        |h| hyperlink_errors(h, rv),
    ) + gated(scope_allows(scope, ScopeCategory::Style), spec.style, |s| style_errors(s, rv))
        + gated(
        scope_allows(scope, ScopeCategory::Ungated),
        spec.macro_,
        |m| macro_errors(m, doc.archive.parts@),
    ) + gated(
        scope_allows(scope, ScopeCategory::Ungated),
        spec.specialcharacter,
        |c| special_errors(c, rv),
    ) + char_shape_part(spec, doc, level, scope, shapes) + gated(
        scope_allows(scope, ScopeCategory::Shape),
        spec.parashape,
        |p| para_shape_errors(p, doc.header, rv),
    ) + gated(
        scope_allows(scope, ScopeCategory::Table),
        spec.table,
        |t| table_errors(t, doc.header, doc.sections@, level, scope),
    ) + gated(
        scope_allows(scope, ScopeCategory::Ungated),
        spec.outlineshape,
        |o| outline_errors(o, doc.header, rv),
    ) + bullet_part(spec, doc, scope, bullets) + gated(
        scope_allows(scope, ScopeCategory::Ungated),
        spec.paranumbullet,
        |p| para_num_errors(p, doc.header, rv),
    )
}

impl<'a> Checker<'a> {
    /// A checker at level `All` with the default scope.
    pub fn new(spec: &'a DvcSpec, document: &'a Document) -> (r: Self)
        ensures
            r.spec == spec,
            r.document == document,
            r.level == CheckLevel::All,
            scope_is_default(r.scope),
    {
        Checker {
            spec,
            document,
            level: CheckLevel::All,
            scope: OutputScope {
                all: false,
                table: false,
                table_detail: false,
                shape: false,
                style: false,
                hyperlink: false,
            },
        }
    }

    /// Run every validator whose category is in scope and whose rules
    /// the spec has, and collect their findings in the fixed order of
    /// `run_errors`.
    pub fn run(&self) -> (r: DvcResult<Vec<DvcErrorInfo>>)
        ensures
            r is Ok,
            r matches Ok(v) ==> exists|shapes: Seq<(u32, CharShape)>, bullets: Seq<(u32, Bullet)>|
                (self.document.header is Some ==> enumerates(
                    shapes,
                    self.document.header->0.char_shapes@,
                ) && enumerates(bullets, self.document.header->0.bullets@)) && error_views(v@)
                    == run_errors(
                    *self.spec,
                    *self.document,
                    self.level,
                    self.scope,
                    shapes,
                    bullets,
                ),
    {
        let spec = self.spec;
        let doc = self.document;
        let ghost rv = run_views(doc.run_type_infos@);
        let mut errors: Vec<DvcErrorInfo> = Vec::new();
        let ghost mut shapes: Seq<(u32, CharShape)> = Seq::empty();
        let ghost mut bullets: Seq<(u32, Bullet)> = Seq::empty();
        if let Some(h) = &doc.header {
            proof {
                vstd::std_specs::hash::axiom_hashmap_view_finite_dom(h.char_shapes);
                vstd::std_specs::hash::axiom_hashmap_view_finite_dom(h.bullets);
                self::bullet::lemma_enumeration_exists(h.char_shapes@);
                self::bullet::lemma_enumeration_exists(h.bullets@);
                shapes = choose|s: Seq<(u32, CharShape)>| enumerates(s, h.char_shapes@);
                bullets = choose|s: Seq<(u32, Bullet)>| enumerates(s, h.bullets@);
            }
        }
        let ghost mut expected: Seq<ErrorView> = Seq::empty();
        assert(error_views(errors@) =~= Seq::<ErrorView>::empty());

        // Hyperlink.
        let mut part: Vec<DvcErrorInfo> = Vec::new();
        if self.scope.allows(ScopeCategory::Hyperlink) {
            if let Some(h) = &spec.hyperlink {
                part = hyperlink::check(h, doc.run_type_infos.as_slice());
            }
        }
        proof {
            expected = gated(
                scope_allows(self.scope, ScopeCategory::Hyperlink),
                spec.hyperlink,
                |h| hyperlink_errors(h, rv),
            );
            assert(error_views(part@) =~= expected);
            lemma_error_views_add(errors@, part@);
        }
        errors.append(&mut part);
        assert(error_views(errors@) == expected);
        let ghost acc = expected;

        // Style.
        let mut part: Vec<DvcErrorInfo> = Vec::new();
        if self.scope.allows(ScopeCategory::Style) {
            if let Some(s) = &spec.style {
                part = style::check(s, doc.run_type_infos.as_slice());
            }
        }
        proof {
            let g = gated(scope_allows(self.scope, ScopeCategory::Style), spec.style, |s| style_errors(s, rv));
            assert(error_views(part@) =~= g);
            lemma_error_views_add(errors@, part@);
            expected = acc + g;
        }
        errors.append(&mut part);
        let ghost acc = expected;

        // Macro.
        let mut part: Vec<DvcErrorInfo> = Vec::new();
        if self.scope.allows(ScopeCategory::Ungated) {
            if let Some(m) = &spec.macro_ {
                part = macro_::check(m, doc);
            }
        }
        proof {
            let g = gated(
                scope_allows(self.scope, ScopeCategory::Ungated),
                spec.macro_,
                |m| macro_errors(m, doc.archive.parts@),
            );
            assert(error_views(part@) =~= g);
            lemma_error_views_add(errors@, part@);
            expected = acc + g;
        }
        errors.append(&mut part);
        let ghost acc = expected;

        // Special characters.
        let mut part: Vec<DvcErrorInfo> = Vec::new();
        if self.scope.allows(ScopeCategory::Ungated) {
            if let Some(c) = &spec.specialcharacter {
                part = special_character::check(c, doc.run_type_infos.as_slice());
            }
        }
        proof {
            let g = gated(
                scope_allows(self.scope, ScopeCategory::Ungated),
                spec.specialcharacter,
                |c| special_errors(c, rv),
            );
            assert(error_views(part@) =~= g);
            lemma_error_views_add(errors@, part@);
            expected = acc + g;
        }
        errors.append(&mut part);
        let ghost acc = expected;

        // Character shapes.
        let mut part: Vec<DvcErrorInfo> = Vec::new();
        if self.scope.allows(ScopeCategory::Shape) {
            if let Some(h) = &doc.header {
                if let Some(c) = &spec.charshape {
                    part = char_shape::check(c, h, doc.run_type_infos.as_slice(), self.level);
                    proof {
                        let s = choose|s: Seq<(u32, CharShape)>|
                            enumerates(s, h.char_shapes@) && error_views(part@) == apply_level(
                                violations_on_runs(shapes_violations(s, *c, h.font_faces@), rv),
                                self.level,
                            );
                        shapes = s;
                    }
                }
            }
        }
        proof {
            let g = char_shape_part(*spec, *doc, self.level, self.scope, shapes);
            assert(error_views(part@) =~= g);
            lemma_error_views_add(errors@, part@);
            expected = acc + g;
        }
        errors.append(&mut part);
        let ghost acc = expected;

        // Paragraph shapes.
        let mut part: Vec<DvcErrorInfo> = Vec::new();
        if self.scope.allows(ScopeCategory::Shape) {
            if let Some(p) = &spec.parashape {
                part = para_shape::check(doc, p);
            }
        }
        proof {
            let g = gated(
                scope_allows(self.scope, ScopeCategory::Shape),
                spec.parashape,
                |p| para_shape_errors(p, doc.header, rv),
            );
            assert(error_views(part@) =~= g);
            lemma_error_views_add(errors@, part@);
            expected = acc + g;
        }
        errors.append(&mut part);
        let ghost acc = expected;

        // Tables.
        let mut part: Vec<DvcErrorInfo> = Vec::new();
        if self.scope.allows(ScopeCategory::Table) {
            if let Some(t) = &spec.table {
                match table::check(doc, t, self.level, self.scope) {
                    Ok(v) => {
                        part = v;
                    },
                    Err(e) => {
                        return Err(e);
                    },
                }
            }
        }
        proof {
            let g = gated(
                scope_allows(self.scope, ScopeCategory::Table),
                spec.table,
                |t| table_errors(t, doc.header, doc.sections@, self.level, self.scope),
            );
            assert(error_views(part@) =~= g);
            lemma_error_views_add(errors@, part@);
            expected = acc + g;
        }
        errors.append(&mut part);
        let ghost acc = expected;

        // Outline shapes.
        let mut part: Vec<DvcErrorInfo> = Vec::new();
        if self.scope.allows(ScopeCategory::Ungated) {
            if let Some(o) = &spec.outlineshape {
                part = outline_shape::check(doc, o);
            }
        }
        proof {
            let g = gated(
                scope_allows(self.scope, ScopeCategory::Ungated),
                spec.outlineshape,
                |o| outline_errors(o, doc.header, rv),
            );
            assert(error_views(part@) =~= g);
            lemma_error_views_add(errors@, part@);
            expected = acc + g;
        }
        errors.append(&mut part);
        let ghost acc = expected;

        // Bullets.
        let mut part: Vec<DvcErrorInfo> = Vec::new();
        if self.scope.allows(ScopeCategory::Ungated) {
            if let Some(b) = &spec.bullet {
                if let Some(h) = &doc.header {
                    part = bullet::check(b, h);
                    proof {
                        if bullet_allow_list(*b) is Some {
                            let s = choose|s: Seq<(u32, Bullet)>|
                                enumerates(s, h.bullets@) && error_views(part@) == bullet_seq_errors(
                                    s,
                                    bullet_allow_list(*b)->0,
                                );
                            bullets = s;
                        }
                    }
                }
            }
        }
        proof {
            let g = bullet_part(*spec, *doc, self.scope, bullets);
            assert(error_views(part@) =~= g);
            lemma_error_views_add(errors@, part@);
            expected = acc + g;
        }
        errors.append(&mut part);
        let ghost acc = expected;

        // Paragraph numbering.
        let mut part: Vec<DvcErrorInfo> = Vec::new();
        if self.scope.allows(ScopeCategory::Ungated) {
            if let Some(p) = &spec.paranumbullet {
                part = para_num_bullet::check(doc, p);
            }
        }
        proof {
            let g = gated(
                scope_allows(self.scope, ScopeCategory::Ungated),
                spec.paranumbullet,
                |p| para_num_errors(p, doc.header, rv),
            );
            assert(error_views(part@) =~= g);
            lemma_error_views_add(errors@, part@);
            expected = acc + g;
        }
        errors.append(&mut part);
        proof {
            assert(expected =~= run_errors(*spec, *doc, self.level, self.scope, shapes, bullets));
        }
        Ok(errors)
    }

    /// `run`, with every message in English when `english` holds and in
    /// Korean otherwise.
    pub fn run_with_language(&self, english: bool) -> (r: DvcResult<Vec<DvcErrorInfo>>)
        ensures
            r is Ok,
            r matches Ok(v) ==> exists|shapes: Seq<(u32, CharShape)>, bullets: Seq<(u32, Bullet)>|
                (self.document.header is Some ==> enumerates(
                    shapes,
                    self.document.header->0.char_shapes@,
                ) && enumerates(bullets, self.document.header->0.bullets@)) && error_views(v@)
                    == in_language(
                    run_errors(*self.spec, *self.document, self.level, self.scope, shapes, bullets),
                    english,
                ),
    {
        let found = match self.run() {
            Ok(v) => v,
            Err(e) => {
                return Err(e);
            },
        };
        let ghost (shapes, bullets) = choose|shapes: Seq<(u32, CharShape)>, bullets: Seq<(u32, Bullet)>|
            (self.document.header is Some ==> enumerates(
                shapes,
                self.document.header->0.char_shapes@,
            ) && enumerates(bullets, self.document.header->0.bullets@)) && error_views(found@)
                == run_errors(*self.spec, *self.document, self.level, self.scope, shapes, bullets);
        if english {
            let v = all_in_english(&found);
            assert(error_views(v@) == in_language(run_errors(*self.spec, *self.document, self.level, self.scope, shapes, bullets), english));
            Ok(v)
        } else {
            Ok(found)
        }
    }
}


/// A finding with its message put into English.
pub open spec fn in_english(e: ErrorView) -> ErrorView {
    ErrorView { error_string: english_message(e.error_code, e.error_string), ..e }
}

/// Findings in the chosen language: as they are, or each with its
/// message put into English.
pub open spec fn in_language(es: Seq<ErrorView>, english: bool) -> Seq<ErrorView> {
    if english {
        es.map_values(|e: ErrorView| in_english(e))
    } else {
        es
    }
}

/// The findings with their messages put into English.
fn all_in_english(errors: &Vec<DvcErrorInfo>) -> (r: Vec<DvcErrorInfo>)
    ensures
        error_views(r@) == error_views(errors@).map_values(|e: ErrorView| in_english(e)),
{
    let mut out: Vec<DvcErrorInfo> = Vec::new();
    let mut i: usize = 0;
    while i < errors.len()
        invariant
            i <= errors@.len(),
            error_views(out@) == error_views(errors@.take(i as int)).map_values(|e: ErrorView| in_english(e)),
        decreases errors.len() - i,
    {
        let e = &errors[i];
        let x = DvcErrorInfo {
            char_pr_id_ref: e.char_pr_id_ref,
            para_pr_id_ref: e.para_pr_id_ref,
            text: e.text.clone(),
            page_no: e.page_no,
            line_no: e.line_no,
            error_code: e.error_code,
            table_id: e.table_id,
            is_in_table: e.is_in_table,
            is_in_table_in_table: e.is_in_table_in_table,
            table_row: e.table_row,
            table_col: e.table_col,
            is_in_shape: e.is_in_shape,
            use_hyperlink: e.use_hyperlink,
            use_style: e.use_style,
            error_string: english_of(e.error_code, e.error_string.as_str()),
        };
        proof {
            assert(x@ == in_english(e@));
            lemma_error_views_push(out@, x);
            assert(errors@.take(i + 1) =~= errors@.take(i as int).push(*e));
            lemma_error_views_push(errors@.take(i as int), *e);
        }
        out.push(x);
        proof {
            assert(error_views(out@) =~= error_views(errors@.take(i + 1)).map_values(|e: ErrorView| in_english(e)));
        }
        i = i + 1;
    }
    assert(errors@.take(errors@.len() as int) =~= errors@);
    out
}

} // verus!

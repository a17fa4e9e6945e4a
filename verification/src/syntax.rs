//! The parser's syntax tree as the verifier sees it, with the mathematical
//! view of each node that contracts are stated over.

use chronlang_parser::ast;
use chronlang_parser::ast::Definition as Sense;
use core::ops::Range;
use vstd::prelude::*;

verus! {

/// A range of positions in a source text.
pub type Span = Range<usize>;

/// A value together with the place it was written at.
pub type Spanned<T> = (Span, T);

/// The characters of a string.
pub type Text = Seq<char>;

// The parser's tree is plain data with public fields. The types that the
// compiler reads are declared to the verifier as the parser defines them:
// nothing is assumed of them. The three that hold the patterns of a sound
// change are declared without their contents: they are carried, not read.

/// `chronlang_parser::ast::Time`, as the parser defines it.
#[verifier::external_type_specification]
pub struct ExTime(ast::Time);

/// `chronlang_parser::ast::Feature`, as the parser defines it.
#[verifier::external_type_specification]
pub struct ExFeature(ast::Feature);

/// `chronlang_parser::ast::Category`, as the parser defines it.
#[verifier::external_type_specification]
pub struct ExCategory(ast::Category);

/// `chronlang_parser::ast::Series`, as the parser defines it.
#[verifier::external_type_specification]
pub struct ExSeries(ast::Series);

/// `chronlang_parser::ast::TraitMember`, as the parser defines it.
#[verifier::external_type_specification]
pub struct ExTraitMember(ast::TraitMember);

/// `chronlang_parser::ast::PhonemeDef`, as the parser defines it.
#[verifier::external_type_specification]
pub struct ExPhonemeDef(ast::PhonemeDef);

/// The parser's own definition of a word's sense, as the parser defines it.
#[verifier::external_type_specification]
pub struct ExSense(Sense);

/// `chronlang_parser::ast::Source`, of which the verifier sees nothing.
#[verifier::external_type_specification]
#[verifier::external_body]
pub struct ExSource(ast::Source);

/// `chronlang_parser::ast::Target`, of which the verifier sees nothing.
#[verifier::external_type_specification]
#[verifier::external_body]
pub struct ExTarget(ast::Target);

/// `chronlang_parser::ast::Environment`, of which the verifier sees nothing.
#[verifier::external_type_specification]
#[verifier::external_body]
pub struct ExEnvironment(ast::Environment);

/// `chronlang_parser::ast::Stmt`, as the parser defines it.
#[verifier::external_type_specification]
pub struct ExStmt(ast::Stmt);

/// A spanned string, seen as its span and its characters.
pub open spec fn text_view(s: Spanned<String>) -> Spanned<Text> {
    (s.0, s.1@)
}

/// An optional spanned string, seen as its span and its characters.
pub open spec fn opt_text_view(s: Option<Spanned<String>>) -> Option<Spanned<Text>> {
    match s {
        Some(s) => Some(text_view(s)),
        None => None,
    }
}

/// A sequence of spanned strings, each seen as its span and its characters.
pub open spec fn texts_view(v: Seq<Spanned<String>>) -> Seq<Spanned<Text>> {
    v.map_values(|s: Spanned<String>| text_view(s))
}

/// A sequence of strings, each seen as its characters.
pub open spec fn names_view(v: Seq<String>) -> Seq<Text> {
    v.map_values(|s: String| s@)
}

/// A slice of strings, each seen as its characters.
pub open spec fn strs_view(v: Seq<&str>) -> Seq<Text> {
    v.map_values(|s: &str| s@)
}

/// The view of a phonological feature: one that is asked for, or one that
/// is ruled out.
pub enum FeatureView {
    Positive(Text),
    Negative(Text),
}

/// The view of a feature.
pub open spec fn feature_view(f: ast::Feature) -> FeatureView {
    match f {
        ast::Feature::Positive(name) => FeatureView::Positive(name@),
        ast::Feature::Negative(name) => FeatureView::Negative(name@),
    }
}

/// Spanned features, each seen as its view.
pub open spec fn features_view(v: Seq<Spanned<ast::Feature>>) -> Seq<Spanned<FeatureView>> {
    v.map_values(|f: Spanned<ast::Feature>| (f.0, feature_view(f.1)))
}

/// The view of a category: an optional base class narrowed by features.
pub struct CategoryView {
    pub base_class: Option<Spanned<char>>,
    pub features: Seq<Spanned<FeatureView>>,
}

/// The view of a category.
pub open spec fn category_view(c: ast::Category) -> CategoryView {
    CategoryView { base_class: c.base_class, features: features_view(c.features@) }
}

/// The view of a series body.
pub enum SeriesView {
    Category(CategoryView),
    List(Seq<Spanned<Text>>),
}

/// The view of a series body.
pub open spec fn series_view(s: ast::Series) -> SeriesView {
    match s {
        ast::Series::Category(c) => SeriesView::Category(category_view(c)),
        ast::Series::List(phonemes) => SeriesView::List(texts_view(phonemes@)),
    }
}

/// The view of a trait member as it is written: its labels, the first of
/// which names it, an optional notation and the default flag.
pub struct TraitMemberView {
    pub labels: Seq<Spanned<Text>>,
    pub notation: Option<Spanned<Text>>,
    pub default: bool,
}

/// The view of a trait member.
pub open spec fn member_view(m: ast::TraitMember) -> TraitMemberView {
    TraitMemberView {
        labels: texts_view(m.labels@),
        notation: opt_text_view(m.notation),
        default: m.default,
    }
}

/// Trait members, each seen as its view.
pub open spec fn members_view(v: Seq<ast::TraitMember>) -> Seq<TraitMemberView> {
    v.map_values(|m: ast::TraitMember| member_view(m))
}

/// The instant that a time stands for in the list of milestones: the point
/// itself, or the end of a range.
pub open spec fn instant_of(t: ast::Time) -> i64 {
    match t {
        ast::Time::Instant(at) => at,
        ast::Time::Range(_, end) => end,
    }
}

/// The view of a phoneme as a class body defines it.
pub struct PhonemeView {
    pub label: Spanned<Text>,
    pub traits: Seq<Spanned<Text>>,
}

/// The view of a phoneme definition.
pub open spec fn phoneme_view(p: ast::PhonemeDef) -> PhonemeView {
    PhonemeView { label: text_view(p.label), traits: texts_view(p.traits@) }
}

/// Spanned phoneme definitions, each seen as its view.
pub open spec fn phonemes_view(v: Seq<Spanned<ast::PhonemeDef>>) -> Seq<Spanned<PhonemeView>> {
    v.map_values(|p: Spanned<ast::PhonemeDef>| (p.0, phoneme_view(p.1)))
}

/// The view of one sense of a word as it is written.
pub struct SenseView {
    pub pos: Option<Spanned<Text>>,
    pub definition: Spanned<Text>,
}

/// The view of a sense.
pub open spec fn sense_view(d: Sense) -> SenseView {
    SenseView { pos: opt_text_view(d.pos), definition: text_view(d.definition) }
}

/// Senses, each seen as its view.
pub open spec fn senses_view(v: Seq<Sense>) -> Seq<SenseView> {
    v.map_values(|d: Sense| sense_view(d))
}

/// The view of a statement. The patterns of a sound change are carried as
/// they are: nothing here looks inside them.
pub enum StmtView {
    SoundChange {
        source: Spanned<ast::Source>,
        target: Spanned<ast::Target>,
        environment: Option<Spanned<ast::Environment>>,
        description: Option<Spanned<Text>>,
    },
    Import { path: Seq<Spanned<Text>>, absolute: bool, names: Seq<Spanned<Text>> },
    Language { id: Spanned<Text>, parent: Option<Spanned<Text>>, name: Option<Spanned<Text>> },
    Word {
        gloss: Spanned<Text>,
        pronunciation: Spanned<Seq<Text>>,
        definitions: Seq<SenseView>,
    },
    Class {
        label: Spanned<Text>,
        encodes: Seq<Spanned<Text>>,
        annotates: Seq<Spanned<Text>>,
        phonemes: Seq<Spanned<PhonemeView>>,
    },
    Series { label: Spanned<Text>, series: Spanned<SeriesView> },
    Trait { label: Spanned<Text>, members: Seq<Spanned<TraitMemberView>> },
    Milestone { time: Option<Spanned<ast::Time>>, language: Option<Spanned<Text>> },
}

/// Spanned trait members, each seen as its view.
pub open spec fn spanned_members_view(v: Seq<Spanned<ast::TraitMember>>) -> Seq<
    Spanned<TraitMemberView>,
> {
    v.map_values(|m: Spanned<ast::TraitMember>| (m.0, member_view(m.1)))
}

/// The view of a statement.
pub open spec fn stmt_view(s: ast::Stmt) -> StmtView {
    match s {
        ast::Stmt::SoundChange { source, target, environment, description } => {
            StmtView::SoundChange {
                source,
                target,
                environment,
                description: opt_text_view(description),
            }
        },
        ast::Stmt::Import { path, absolute, names } => StmtView::Import {
            path: texts_view(path@),
            absolute,
            names: texts_view(names@),
        },
        ast::Stmt::Language { id, parent, name } => StmtView::Language {
            id: text_view(id),
            parent: opt_text_view(parent),
            name: opt_text_view(name),
        },
        ast::Stmt::Word { gloss, pronunciation, definitions } => StmtView::Word {
            gloss: text_view(gloss),
            pronunciation: (pronunciation.0, names_view(pronunciation.1@)),
            definitions: senses_view(definitions@),
        },
        ast::Stmt::Class { label, encodes, annotates, phonemes } => StmtView::Class {
            label: text_view(label),
            encodes: texts_view(encodes@),
            annotates: texts_view(annotates@),
            phonemes: phonemes_view(phonemes@),
        },
        ast::Stmt::Series { label, series } => StmtView::Series {
            label: text_view(label),
            series: (series.0, series_view(series.1)),
        },
        ast::Stmt::Trait { label, members } => StmtView::Trait {
            label: text_view(label),
            members: spanned_members_view(members@),
        },
        ast::Stmt::Milestone { time, language } => StmtView::Milestone {
            time,
            language: opt_text_view(language),
        },
    }
}

/// The view of a statement stream.
pub open spec fn stmts_view(v: Seq<Spanned<ast::Stmt>>) -> Seq<Spanned<StmtView>> {
    v.map_values(|s: Spanned<ast::Stmt>| (s.0, stmt_view(s.1)))
}

/// A copy of a span.
pub fn copy_span(s: &Span) -> (r: Span)
    ensures
        r == *s,
{
    Range { start: s.start, end: s.end }
}

/// A copy of a spanned string.
pub fn copy_text(s: &Spanned<String>) -> (r: Spanned<String>)
    ensures
        r == *s,
{
    (copy_span(&s.0), s.1.clone())
}

/// A copy of an optional spanned string.
pub fn copy_opt_text(s: &Option<Spanned<String>>) -> (r: Option<Spanned<String>>)
    ensures
        r == *s,
{
    match s {
        Some(s) => Some(copy_text(s)),
        None => None,
    }
}

/// A copy of a list of strings.
pub fn copy_names(v: &Vec<String>) -> (r: Vec<String>)
    ensures
        r@ == v@,
{
    let mut r: Vec<String> = Vec::new();
    let mut i: usize = 0;
    while i < v.len()
        invariant
            i <= v.len(),
            r@ == v@.take(i as int),
        decreases v.len() - i,
    {
        r.push(v[i].clone());
        i += 1;
    }
    r
}

/// A copy of a list of spanned strings.
pub fn copy_texts(v: &Vec<Spanned<String>>) -> (r: Vec<Spanned<String>>)
    ensures
        r@ == v@,
{
    let mut r: Vec<Spanned<String>> = Vec::new();
    let mut i: usize = 0;
    while i < v.len()
        invariant
            i <= v.len(),
            r@ == v@.take(i as int),
        decreases v.len() - i,
    {
        r.push(copy_text(&v[i]));
        i += 1;
    }
    r
}

/// A copy of a feature.
pub fn copy_feature(f: &ast::Feature) -> (r: ast::Feature)
    ensures
        r == *f,
{
    match f {
        ast::Feature::Positive(name) => ast::Feature::Positive(name.clone()),
        ast::Feature::Negative(name) => ast::Feature::Negative(name.clone()),
    }
}

/// A copy of a category.
pub fn copy_category(c: &ast::Category) -> (r: ast::Category)
    ensures
        category_view(r) == category_view(*c),
{
    let mut features: Vec<Spanned<ast::Feature>> = Vec::new();
    let mut i: usize = 0;
    while i < c.features.len()
        invariant
            i <= c.features.len(),
            features@ == c.features@.take(i as int),
        decreases c.features.len() - i,
    {
        features.push((copy_span(&c.features[i].0), copy_feature(&c.features[i].1)));
        i += 1;
    }
    assert(c.features@.take(c.features.len() as int) =~= c.features@);
    let base_class = match &c.base_class {
        Some(b) => Some((copy_span(&b.0), b.1)),
        None => None,
    };
    ast::Category { base_class, features }
}

/// A copy of a series body.
pub fn copy_series(s: &ast::Series) -> (r: ast::Series)
    ensures
        series_view(r) == series_view(*s),
{
    match s {
        ast::Series::Category(c) => ast::Series::Category(copy_category(c)),
        ast::Series::List(phonemes) => ast::Series::List(copy_texts(phonemes)),
    }
}

/// A copy of a trait member.
pub fn copy_member(m: &ast::TraitMember) -> (r: ast::TraitMember)
    ensures
        member_view(r) == member_view(*m),
{
    ast::TraitMember {
        labels: copy_texts(&m.labels),
        notation: copy_opt_text(&m.notation),
        default: m.default,
    }
}

/// A copy of a list of trait members.
pub fn copy_members(v: &Vec<ast::TraitMember>) -> (r: Vec<ast::TraitMember>)
    ensures
        members_view(r@) == members_view(v@),
{
    let mut r: Vec<ast::TraitMember> = Vec::new();
    let mut i: usize = 0;
    while i < v.len()
        invariant
            i <= v.len(),
            r@.len() == i,
            forall|j: int| 0 <= j < i ==> member_view(#[trigger] r@[j]) == member_view(v@[j]),
        decreases v.len() - i,
    {
        r.push(copy_member(&v[i]));
        i += 1;
    }
    r
}

} // verus!

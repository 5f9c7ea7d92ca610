//! The content specification a document is written and checked against:
//! keyword, site domain, length and link ranges, outline and rubric criteria.
use vstd::prelude::*;
use crate::text::{chars_of, join_strings, join_with, str_views, trim, trim_vec};

verus! {

/// A recommended H2 section of the outline.
#[derive(Debug, Clone)]
pub struct Section {
    pub id: String,
    pub title: String,
    pub guide: String,
    /// When true, a document without this section gets a format finding.
    pub required: bool,
}

/// A rubric criterion. Its weight is carried beside the specification by the
/// caller that scores; the checks here never read it.
#[derive(Debug, Clone)]
pub struct Criterion {
    pub id: String,
    pub name: String,
    pub guide: String,
    /// When true, the criterion is capped at 60 points for a document with too few
    /// citation links.
    pub citation_required: bool,
}

/// A content specification.
#[derive(Debug, Clone)]
pub struct Spec {
    /// Content type name (e.g. "How-to blog post").
    pub name: String,
    /// Site / brand / audience context, inserted verbatim into prompts.
    pub context: String,
    /// The single primary target keyword.
    pub keyword: String,
    /// Note on the scoring basis, shown in reports.
    pub scoring_source: String,
    /// The site's domain, deciding internal vs. external links.
    pub site_domain: String,
    pub title_min: usize,
    pub title_max: usize,
    pub meta_min: usize,
    pub meta_max: usize,
    pub internal_links_min: usize,
    pub internal_links_max: usize,
    /// Minimum number of citation (external) links.
    pub min_citations: usize,
    /// Content angles for generation diversity.
    pub angles: Vec<String>,
    /// Score band descriptors; defaults apply when empty.
    pub bands: Vec<String>,
    pub sections: Vec<Section>,
    pub criteria: Vec<Criterion>,
}

pub fn default_title_min() -> (r: usize)
    ensures
        r == 50,
{
    50
}

pub fn default_title_max() -> (r: usize)
    ensures
        r == 60,
{
    60
}

pub fn default_meta_min() -> (r: usize)
    ensures
        r == 120,
{
    120
}

pub fn default_meta_max() -> (r: usize)
    ensures
        r == 160,
{
    160
}

pub fn default_links_min() -> (r: usize)
    ensures
        r == 3,
{
    3
}

pub fn default_links_max() -> (r: usize)
    ensures
        r == 5,
{
    5
}

pub fn default_min_citations() -> (r: usize)
    ensures
        r == 1,
{
    1
}


/// Why a specification is refused.
#[derive(Clone, Copy, Debug, PartialEq, Eq)]
pub enum SpecError {
    EmptyKeyword,
    NoCriteria,
    NonPositiveWeight,
    TitleRange,
    MetaRange,
    LinkRange,
    DuplicateCriterionId,
}

impl SpecError {
    pub fn message(&self) -> (r: &'static str)
        ensures
            r@ == match *self {
                SpecError::EmptyKeyword => "keyword is empty"@,
                SpecError::NoCriteria => "criteria is empty"@,
                SpecError::NonPositiveWeight => "criteria weight must all be greater than 0"@,
                SpecError::TitleRange => "title_min cannot be greater than title_max"@,
                SpecError::MetaRange => "meta_min cannot be greater than meta_max"@,
                SpecError::LinkRange => "internal_links_min cannot be greater than internal_links_max"@,
                SpecError::DuplicateCriterionId => "duplicate criteria id"@,
            },
    {
        match self {
            SpecError::EmptyKeyword => "keyword is empty",
            SpecError::NoCriteria => "criteria is empty",
            SpecError::NonPositiveWeight => "criteria weight must all be greater than 0",
            SpecError::TitleRange => "title_min cannot be greater than title_max",
            SpecError::MetaRange => "meta_min cannot be greater than meta_max",
            SpecError::LinkRange => "internal_links_min cannot be greater than internal_links_max",
            SpecError::DuplicateCriterionId => "duplicate criteria id",
        }
    }
}

/// Two criteria share an id.
pub open spec fn has_duplicate_ids(cs: Seq<Criterion>) -> bool {
    exists|i: int, j: int| 0 <= i < j < cs.len() && #[trigger] cs[i].id@ == #[trigger] cs[j].id@
}

/// The first problem with a specification, in this order: blank keyword, no
/// criteria, a criterion weight not above 0 (`weights_positive` is false), a
/// min above its max for title, meta description, internal links, two criteria
/// with the same id.
pub open spec fn validate_spec(s: Spec, weights_positive: bool) -> Option<SpecError> {
    if trim(s.keyword@).len() == 0 {
        Some(SpecError::EmptyKeyword)
    } else if s.criteria.len() == 0 {
        Some(SpecError::NoCriteria)
    } else if !weights_positive {
        Some(SpecError::NonPositiveWeight)
    } else if s.title_min > s.title_max {
        Some(SpecError::TitleRange)
    } else if s.meta_min > s.meta_max {
        Some(SpecError::MetaRange)
    } else if s.internal_links_min > s.internal_links_max {
        Some(SpecError::LinkRange)
    } else if has_duplicate_ids(s.criteria@) {
        Some(SpecError::DuplicateCriterionId)
    } else {
        None
    }
}

/// The prompt text of the default score bands.
pub open spec fn default_bands_text() -> Seq<char> {
    "90-100: Precisely matches search intent, keywords are woven in naturally, E-E-A-T signals (experience, sources) are sufficient, and structure is clear."@
        + "\n"@
        + "75-89: Mostly matches, but some evidence is shallow or structure is somewhat unfocused."@
        + "\n"@
        + "60-74: Meets the basics, but satisfies search intent only superficially and lacks evidence/sources."@
        + "\n"@
        + "40-59: Mostly generic statements. Keywords are unnatural (over-optimized/misplaced) or there's little supporting evidence."@
        + "\n"@ + "0-39: Unrelated to search intent, or content is empty."@
}

/// One outline entry of the sections prompt.
pub open spec fn section_entry(s: Section) -> Seq<char> {
    "## "@ + s.title@ + "\n- Writing guide: "@ + s.guide@ + if s.required {
        "\n- Required section"@
    } else {
        seq![]
    }
}

pub open spec fn section_entries(ss: Seq<Section>) -> Seq<Seq<char>> {
    Seq::new(ss.len(), |i: int| section_entry(ss[i]))
}

pub open spec fn bands_prompt_spec(s: Spec) -> Seq<char> {
    if s.bands.len() == 0 {
        default_bands_text()
    } else {
        join_with(str_views(s.bands@), "\n"@)
    }
}

pub open spec fn sections_prompt_spec(s: Spec) -> Seq<char> {
    if s.sections.len() == 0 {
        "(No recommended outline specified — structure H2-H6 freely to match search intent)"@
    } else {
        join_with(section_entries(s.sections@), "\n\n"@)
    }
}

/// One criterion line of the rubric prompt; `percent` is the criterion's share
/// of the total weight, already rendered.
pub open spec fn rubric_entry(c: Criterion, percent: Seq<char>) -> Seq<char> {
    "- id=\""@ + c.id@ + "\" | "@ + c.name@ + " (weight "@ + percent + "%) : "@ + c.guide@
        + if c.citation_required {
        " [If the body has no source/citation links, this item is automatically capped at 60 points]"@
    } else {
        seq![]
    }
}

pub open spec fn rubric_entries(cs: Seq<Criterion>, percents: Seq<Seq<char>>) -> Seq<Seq<char>> {
    Seq::new(cs.len(), |i: int| rubric_entry(cs[i], percents[i]))
}

/// The rubric prompt: one line per criterion, in order.
pub open spec fn rubric_prompt_spec(s: Spec, percents: Seq<Seq<char>>) -> Seq<char> {
    join_with(rubric_entries(s.criteria@, percents), "\n"@)
}

impl Spec {
    /// Checks a specification; see `validate_spec`. Whether every criterion
    /// weight is above 0 is decided by the caller, which holds the weights.
    pub fn validate(&self, weights_positive: bool) -> (r: Result<(), SpecError>)
        ensures
            match validate_spec(*self, weights_positive) {
                Some(e) => r == Err::<(), SpecError>(e),
                None => r is Ok,
            },
    {
        if trim_vec(&chars_of(self.keyword.as_str())).len() == 0 {
            return Err(SpecError::EmptyKeyword);
        }
        if self.criteria.len() == 0 {
            return Err(SpecError::NoCriteria);
        }
        if !weights_positive {
            return Err(SpecError::NonPositiveWeight);
        }
        if self.title_min > self.title_max {
            return Err(SpecError::TitleRange);
        }
        if self.meta_min > self.meta_max {
            return Err(SpecError::MetaRange);
        }
        if self.internal_links_min > self.internal_links_max {
            return Err(SpecError::LinkRange);
        }
        let n = self.criteria.len();
        let mut j: usize = 0;
        let ghost before = validate_spec(*self, weights_positive) == if has_duplicate_ids(
            self.criteria@,
        ) {
            Some(SpecError::DuplicateCriterionId)
        } else {
            None
        };
        while j < n
            invariant
                before,
                before == (validate_spec(*self, weights_positive) == if has_duplicate_ids(
                    self.criteria@,
                ) {
                    Some(SpecError::DuplicateCriterionId)
                } else {
                    None
                }),
                n == self.criteria.len(),
                j <= n,
                forall|a: int, b: int|
                    0 <= a < b < j ==> #[trigger] self.criteria@[a].id@ != #[trigger] self.criteria@[b].id@,
            decreases n - j,
        {
            let mut i: usize = 0;
            while i < j
                invariant
                    before,
                    before == (validate_spec(*self, weights_positive) == if has_duplicate_ids(
                        self.criteria@,
                    ) {
                        Some(SpecError::DuplicateCriterionId)
                    } else {
                        None
                    }),
                    n == self.criteria.len(),
                    i <= j < n,
                    forall|a: int, b: int|
                        0 <= a < b < j ==> #[trigger] self.criteria@[a].id@ != #[trigger] self.criteria@[b].id@,
                    forall|a: int| 0 <= a < i ==> #[trigger] self.criteria@[a].id@ != self.criteria@[j as int].id@,
                decreases j - i,
            {
                if self.criteria[i].id == self.criteria[j].id {
                    assert(has_duplicate_ids(self.criteria@));
                    return Err(SpecError::DuplicateCriterionId);
                }
                i += 1;
            }
            j += 1;
        }
        Ok(())
    }

    /// The score band descriptors, one per line; the defaults when none are given.
    pub fn bands_prompt(&self) -> (r: String)
        ensures
            r@ == bands_prompt_spec(*self),
    {
        if self.bands.len() == 0 {
            let mut s = String::new();
            s.append("90-100: Precisely matches search intent, keywords are woven in naturally, E-E-A-T signals (experience, sources) are sufficient, and structure is clear.");
            s.append("\n");
            s.append("75-89: Mostly matches, but some evidence is shallow or structure is somewhat unfocused.");
            s.append("\n");
            s.append("60-74: Meets the basics, but satisfies search intent only superficially and lacks evidence/sources.");
            s.append("\n");
            s.append("40-59: Mostly generic statements. Keywords are unnatural (over-optimized/misplaced) or there's little supporting evidence.");
            s.append("\n");
            s.append("0-39: Unrelated to search intent, or content is empty.");
            s
        } else {
            join_strings(&self.bands, "\n")
        }
    }

    /// The recommended outline as prompt text: one entry per section, separated
    /// by a blank line; a note that the structure is free when there is none.
    pub fn sections_prompt(&self) -> (r: String)
        ensures
            r@ == sections_prompt_spec(*self),
    {
        if self.sections.len() == 0 {
            let mut s = String::new();
            s.append("(No recommended outline specified — structure H2-H6 freely to match search intent)");
            return s;
        }
        let mut entries: Vec<String> = Vec::new();
        let mut i: usize = 0;
        while i < self.sections.len()
            invariant
                i <= self.sections.len(),
                str_views(entries@) =~= section_entries(self.sections@).take(i as int),
            decreases self.sections.len() - i,
        {
            let sec = &self.sections[i];
            let mut e = String::new();
            e.append("## ");
            e.append(sec.title.as_str());
            e.append("\n- Writing guide: ");
            e.append(sec.guide.as_str());
            if sec.required {
                e.append("\n- Required section");
            } else {
                assert(e@ =~= e@ + seq![]);
            }
            assert(e@ =~= section_entry(self.sections@[i as int]));
            let ghost prev = str_views(entries@);
            entries.push(e);
            assert(str_views(entries@) =~= prev.push(section_entry(self.sections@[i as int])));
            assert(section_entries(self.sections@).take(i + 1) =~= section_entries(self.sections@).take(
                i as int,
            ).push(section_entry(self.sections@[i as int])));
            i += 1;
        }
        assert(section_entries(self.sections@).take(i as int) =~= section_entries(self.sections@));
        join_strings(&entries, "\n\n")
    }

    /// The rubric as prompt text: for each criterion its id, name, share of the
    /// total weight (`percents`, in criterion order, rendered by the caller that
    /// holds the weights), guide, and the citation cap note where it applies.
    pub fn rubric_prompt(&self, percents: &Vec<String>) -> (r: String)
        requires
            percents.len() == self.criteria.len(),
        ensures
            r@ == rubric_prompt_spec(*self, str_views(percents@)),
    {
        let mut entries: Vec<String> = Vec::new();
        let mut i: usize = 0;
        while i < self.criteria.len()
            invariant
                i <= self.criteria.len(),
                percents.len() == self.criteria.len(),
                str_views(entries@) =~= rubric_entries(self.criteria@, str_views(percents@)).take(
                    i as int,
                ),
            decreases self.criteria.len() - i,
        {
            let c = &self.criteria[i];
            let mut e = String::new();
            e.append("- id=\"");
            e.append(c.id.as_str());
            e.append("\" | ");
            e.append(c.name.as_str());
            e.append(" (weight ");
            e.append(percents[i].as_str());
            e.append("%) : ");
            e.append(c.guide.as_str());
            if c.citation_required {
                e.append(" [If the body has no source/citation links, this item is automatically capped at 60 points]");
            } else {
                assert(e@ =~= e@ + seq![]);
            }
            assert(str_views(percents@)[i as int] == percents@[i as int]@);
            assert(e@ =~= rubric_entry(self.criteria@[i as int], str_views(percents@)[i as int]));
            let ghost prev = str_views(entries@);
            entries.push(e);
            assert(str_views(entries@) =~= prev.push(
                rubric_entry(self.criteria@[i as int], str_views(percents@)[i as int]),
            ));
            assert(rubric_entries(self.criteria@, str_views(percents@)).take(i + 1)
                =~= rubric_entries(self.criteria@, str_views(percents@)).take(i as int).push(
                rubric_entry(self.criteria@[i as int], str_views(percents@)[i as int]),
            ));
            i += 1;
        }
        assert(rubric_entries(self.criteria@, str_views(percents@)).take(i as int)
            =~= rubric_entries(self.criteria@, str_views(percents@)));
        join_strings(&entries, "\n")
    }
}

/// A specification that passes validation has a keyword, criteria with
/// distinct ids, and each min at most its max.
pub proof fn law_valid_spec_is_consistent(s: Spec, weights_positive: bool)
    requires
        validate_spec(s, weights_positive) is None,
    ensures
        trim(s.keyword@).len() > 0,
        s.criteria.len() > 0,
        weights_positive,
        s.title_min <= s.title_max,
        s.meta_min <= s.meta_max,
        s.internal_links_min <= s.internal_links_max,
        forall|i: int, j: int|
            0 <= i < j < s.criteria.len() ==> #[trigger] s.criteria@[i].id@ != #[trigger] s.criteria@[j].id@,
{
}

} // verus!

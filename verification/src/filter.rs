//! The resampling filters and their names.

use crate::error::ConfigError;
use crate::text::{chars_of, spells};
use vstd::prelude::*;
use vstd::string::StringExecFns;

verus! {

/// A resampling filter.
#[derive(Clone, Copy, Debug, PartialEq, Eq, Structural)]
pub enum FilterKind {
    /// Nearest neighbour.
    Nearest,
    /// Linear interpolation.
    Triangle,
    /// Cubic interpolation after Catmull and Rom.
    CatmullRom,
    /// Gaussian.
    Gaussian,
    /// Lanczos with a window of three.
    Lanczos3,
}

impl FilterKind {
    /// The name under which the filter is chosen.
    pub open spec fn name_text(self) -> Seq<char> {
        match self {
            FilterKind::Nearest => "nearest"@,
            FilterKind::Triangle => "triangle"@,
            FilterKind::CatmullRom => "catmullrom"@,
            FilterKind::Gaussian => "gaussian"@,
            FilterKind::Lanczos3 => "lanczos3"@,
        }
    }

    /// The name under which the filter is chosen.
    pub fn name(self) -> (name: &'static str)
        ensures
            name@ == self.name_text(),
    {
        match self {
            FilterKind::Nearest => "nearest",
            FilterKind::Triangle => "triangle",
            FilterKind::CatmullRom => "catmullrom",
            FilterKind::Gaussian => "gaussian",
            FilterKind::Lanczos3 => "lanczos3",
        }
    }
}

/// The filters in the order in which they are listed.
pub open spec fn all_kinds() -> Seq<FilterKind> {
    seq![
        FilterKind::Nearest,
        FilterKind::Triangle,
        FilterKind::CatmullRom,
        FilterKind::Gaussian,
        FilterKind::Lanczos3,
    ]
}

/// The filter that a name stands for.
pub open spec fn filter_named(name: Seq<char>) -> Option<FilterKind> {
    if name == "nearest"@ {
        Some(FilterKind::Nearest)
    } else if name == "triangle"@ {
        Some(FilterKind::Triangle)
    } else if name == "catmullrom"@ {
        Some(FilterKind::CatmullRom)
    } else if name == "gaussian"@ {
        Some(FilterKind::Gaussian)
    } else if name == "lanczos3"@ {
        Some(FilterKind::Lanczos3)
    } else {
        None
    }
}

/// The names of `kinds`, each followed by a newline.
pub open spec fn listing_text(kinds: Seq<FilterKind>) -> Seq<char>
    decreases kinds.len(),
{
    if kinds.len() == 0 {
        Seq::empty()
    } else {
        listing_text(kinds.drop_last()) + kinds.last().name_text().push('\n')
    }
}

/// The filters in the order in which they are listed.
pub fn filter_kinds() -> (kinds: Vec<FilterKind>)
    ensures
        kinds@ == all_kinds(),
{
    let mut kinds: Vec<FilterKind> = Vec::new();
    kinds.push(FilterKind::Nearest);
    kinds.push(FilterKind::Triangle);
    kinds.push(FilterKind::CatmullRom);
    kinds.push(FilterKind::Gaussian);
    kinds.push(FilterKind::Lanczos3);
    kinds
}

/// Looks a filter up by its name. The names are matched as they are
/// written, in lower case.
pub fn get_filter(name: &str) -> (found: Result<FilterKind, ConfigError>)
    ensures
        found == match filter_named(name@) {
            Some(kind) => Ok::<FilterKind, ConfigError>(kind),
            None => Err::<FilterKind, ConfigError>(ConfigError::UnknownFilter),
        },
{
    let text = chars_of(name);
    if spells(&text, "nearest") {
        Ok(FilterKind::Nearest)
    } else if spells(&text, "triangle") {
        Ok(FilterKind::Triangle)
    } else if spells(&text, "catmullrom") {
        Ok(FilterKind::CatmullRom)
    } else if spells(&text, "gaussian") {
        Ok(FilterKind::Gaussian)
    } else if spells(&text, "lanczos3") {
        Ok(FilterKind::Lanczos3)
    } else {
        Err(ConfigError::UnknownFilter)
    }
}

/// The list of filters as it is shown: every name on a line of its own.
pub fn filter_listing() -> (text: String)
    ensures
        text@ == listing_text(all_kinds()),
{
    let kinds = filter_kinds();
    let mut text = String::new();
    let mut i: usize = 0;
    while i < kinds.len()
        invariant
            i <= kinds.len(),
            kinds@ == all_kinds(),
            text@ == listing_text(kinds@.take(i as int)),
        decreases kinds.len() - i,
    {
        proof {
            reveal_strlit("\n");
            assert(kinds@.take(i + 1).drop_last() =~= kinds@.take(i as int));
        }
        text.append(kinds[i].name());
        text.append("\n");
        i += 1;
    }
    assert(kinds@.take(kinds.len() as int) =~= kinds@);
    text
}

/// The listing is the five names in their fixed order, each on a line of its
/// own.
pub proof fn lemma_listing_is_five_lines()
    ensures
        listing_text(all_kinds()) == "nearest\ntriangle\ncatmullrom\ngaussian\nlanczos3\n"@,
{
    reveal_strlit("nearest");
    reveal_strlit("triangle");
    reveal_strlit("catmullrom");
    reveal_strlit("gaussian");
    reveal_strlit("lanczos3");
    reveal_strlit("nearest\ntriangle\ncatmullrom\ngaussian\nlanczos3\n");
    let kinds = all_kinds();
    reveal_with_fuel(listing_text, 6);
    assert(kinds.drop_last() =~= seq![
        FilterKind::Nearest,
        FilterKind::Triangle,
        FilterKind::CatmullRom,
        FilterKind::Gaussian,
    ]);
    assert(kinds.drop_last().drop_last() =~= seq![
        FilterKind::Nearest,
        FilterKind::Triangle,
        FilterKind::CatmullRom,
    ]);
    assert(kinds.drop_last().drop_last().drop_last() =~= seq![
        FilterKind::Nearest,
        FilterKind::Triangle,
    ]);
    assert(kinds.drop_last().drop_last().drop_last().drop_last().drop_last() =~= Seq::<
        FilterKind,
    >::empty());
}

/// Every filter is found again under its own name, so no two filters share
/// a name.
pub proof fn lemma_name_finds_filter(kind: FilterKind)
    ensures
        filter_named(kind.name_text()) == Some(kind),
{
    reveal_strlit("nearest");
    reveal_strlit("triangle");
    reveal_strlit("catmullrom");
    reveal_strlit("gaussian");
    reveal_strlit("lanczos3");
    // The five names begin with five different letters.
    assert("nearest"@[0] == 'n');
    assert("triangle"@[0] == 't');
    assert("catmullrom"@[0] == 'c');
    assert("gaussian"@[0] == 'g');
    assert("lanczos3"@[0] == 'l');
}

/// A name stands for a filter exactly where it is that filter's name; every
/// other text stands for none.
pub proof fn lemma_filter_named_iff(name: Seq<char>, kind: FilterKind)
    ensures
        filter_named(name) == Some(kind) <==> name == kind.name_text(),
        filter_named(name) is None <==> forall|other: FilterKind| name != #[trigger] other.name_text(),
{
    lemma_name_finds_filter(FilterKind::Nearest);
    lemma_name_finds_filter(FilterKind::Triangle);
    lemma_name_finds_filter(FilterKind::CatmullRom);
    lemma_name_finds_filter(FilterKind::Gaussian);
    lemma_name_finds_filter(FilterKind::Lanczos3);
    if filter_named(name) is Some {
        let found = filter_named(name)->0;
    }
}

/// Two filters with the same name are the same filter.
pub proof fn lemma_names_are_distinct(first: FilterKind, second: FilterKind)
    requires
        first.name_text() == second.name_text(),
    ensures
        first == second,
{
    lemma_name_finds_filter(first);
    lemma_name_finds_filter(second);
}

} // verus!

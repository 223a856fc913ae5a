use vstd::prelude::*;

use crate::text::{decimal, push_char, push_decimal};

verus! {

/// A parsed URL, carried through opaque.
#[verifier::external_type_specification]
#[verifier::external_body]
pub struct ExUrl(url::Url);

/// Relies on url's derived `Clone` for `Url`, which copies its serialization and
/// offsets; nothing is claimed of the copy.
pub assume_specification[ <url::Url as Clone>::clone ](u: &url::Url) -> url::Url;

/// Relies on `RangeInclusive::start`: the lower bound the range was made with.
pub assume_specification<Idx>[ std::ops::RangeInclusive::<Idx>::start ](
    r: &std::ops::RangeInclusive<Idx>,
) -> (b: &Idx)
    ensures
        *b == r@.start,
;

/// Relies on `RangeInclusive::end`: the upper bound the range was made with.
pub assume_specification<Idx>[ std::ops::RangeInclusive::<Idx>::end ](
    r: &std::ops::RangeInclusive<Idx>,
) -> (b: &Idx)
    ensures
        *b == r@.end,
;

/// Relies on the derived `Clone` of `RangeInclusive`; nothing is claimed of the copy.
pub assume_specification<Idx: Clone>[ <std::ops::RangeInclusive<Idx> as Clone>::clone ](
    r: &std::ops::RangeInclusive<Idx>,
) -> std::ops::RangeInclusive<Idx>;

/// A structured citation record.
#[derive(Debug, Clone, PartialEq, Eq)]
pub struct Citation {
    pub authors: Vec<Individual>,
    pub number: SequencedNumber,
    pub publisher: String,
    pub publication_datetime: CitationDate,
    pub contributors: Vec<Individual>,
    pub title_source: String,
    pub title_container: String,
    pub location: Location,
}

/// A number within a series, such as a volume and an issue.
#[derive(Debug, Clone, Copy, PartialEq, Eq)]
pub struct SequencedNumber {
    pub parent: u32,
    pub child: u32,
}

/// A publication date, to the year, the month or the day.
#[derive(Debug, Clone, PartialEq, Eq)]
pub enum CitationDate {
    Y(i32),
    YM(i32, u32),
    YMD(i32, u32, u32),
}

/// A person named in a citation, with the part they played.
#[derive(Debug, Clone, PartialEq, Eq)]
pub struct Individual {
    pub kind: IndividualKind,
    pub name: String,
}

/// The part that an individual played in a work.
#[derive(Debug, Clone, PartialEq, Eq)]
pub enum IndividualKind {
    Author,
    Editor,
    Contributor,
    Translator,
    Other(String),
}

impl Individual {
    pub fn new(kind: IndividualKind, name: String) -> (r: Self)
        ensures
            r.kind == kind,
            r.name == name,
    {
        Individual { kind, name }
    }

    pub fn author(name: String) -> (r: Self)
        ensures
            r.kind is Author,
            r.name == name,
    {
        Individual::new(IndividualKind::Author, name)
    }

    pub fn editor(name: String) -> (r: Self)
        ensures
            r.kind is Editor,
            r.name == name,
    {
        Individual::new(IndividualKind::Editor, name)
    }

    pub fn contributor(name: String) -> (r: Self)
        ensures
            r.kind is Contributor,
            r.name == name,
    {
        Individual::new(IndividualKind::Contributor, name)
    }

    pub fn translator(name: String) -> (r: Self)
        ensures
            r.kind is Translator,
            r.name == name,
    {
        Individual::new(IndividualKind::Translator, name)
    }

    pub fn is_author(&self) -> (r: bool)
        ensures
            r == self.kind is Author,
    {
        matches!(self.kind, IndividualKind::Author)
    }

    pub fn is_editor(&self) -> (r: bool)
        ensures
            r == self.kind is Editor,
    {
        matches!(self.kind, IndividualKind::Editor)
    }

    pub fn is_contributor(&self) -> (r: bool)
        ensures
            r == self.kind is Contributor,
    {
        matches!(self.kind, IndividualKind::Contributor)
    }

    pub fn is_translator(&self) -> (r: bool)
        ensures
            r == self.kind is Translator,
    {
        matches!(self.kind, IndividualKind::Translator)
    }
}

/// Where the cited material is found.
#[derive(Debug, Clone, PartialEq, Eq)]
pub enum Location {
    Url(url::Url),
    Page(Page),
    Place(String),
}

/// A page, or an inclusive range of pages.
#[derive(Debug, Clone, PartialEq, Eq)]
pub enum Page {
    FromTo(std::ops::RangeInclusive<u32>),
    At(u32),
}

impl Page {
    pub fn is_range(&self) -> (r: bool)
        ensures
            r == *self is FromTo,
    {
        matches!(self, Page::FromTo(_))
    }

    /// The page as text: `first-last` for a range, the number for a single page.
    pub fn to_string(&self) -> (r: String)
        ensures
            r@ == match *self {
                Page::FromTo(range) => decimal(range@.start as nat) + seq!['-'] + decimal(
                    range@.end as nat,
                ),
                Page::At(n) => decimal(n as nat),
            },
    {
        let mut buf = String::new();
        match self {
            Page::FromTo(range) => {
                push_decimal(&mut buf, *range.start());
                push_char(&mut buf, '-');
                push_decimal(&mut buf, *range.end());
            },
            Page::At(n) => push_decimal(&mut buf, *n),
        }
        buf
    }
}

} // verus!

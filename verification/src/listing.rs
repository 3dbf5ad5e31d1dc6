//! Walking a venue's production list: the children of the list in document
//! order, the year heading in effect, and one show per listing item.

use vstd::prelude::*;
use vstd::string::*;
use select::document::Document;
use crate::date::{date_from_text, date_of_text, Date, DateFailure, DateParseError};
use crate::page::{
    all_nodes, children_of, document_find, found_by_name, found_by_name_and_class,
    found_in_document, found_under_node, is_parsed, node_count, node_find, node_has_class,
    node_has_name, node_is_classed, node_is_named, node_text, parse_document, parsed_document,
    selection_children, selection_find_name, selection_find_name_and_class, text_of_node, MAX_PAGE_CHARS,
};
use crate::text::{decimal, parse_decimal, scan, skip, to_chars, CharClass};

verus! {

/// One child of the production list, with what the walk reads from it.
#[derive(Clone, Debug, PartialEq, Eq)]
pub enum ListingChild {
    /// A year heading, with its text.
    YearHeading(String),
    /// A listing item, with the text of its first title and of its first
    /// date paragraph, as far as it has them.
    ListingItem { title: Option<String>, date_text: Option<String> },
    /// Anything else.
    Other,
}

/// The mathematical value of a `ListingChild`.
pub enum ChildView {
    YearHeading(Seq<char>),
    ListingItem { title: Option<Seq<char>>, date_text: Option<Seq<char>> },
    Other,
}

/// One production of a venue.
#[derive(Clone, Debug, PartialEq, Eq)]
pub struct Show {
    pub name: String,
    pub date: Date,
}

/// The mathematical value of a `Show`.
pub struct ShowView {
    pub name: Seq<char>,
    pub date: Date,
}

/// Why a venue's listing could not be read.
#[derive(Clone, Debug, PartialEq, Eq)]
pub enum ExtractError {
    /// A listing item stands before the first year heading.
    MissingYear,
    /// A listing item has no title.
    MissingTitle,
    /// A listing item has no date paragraph.
    MissingDate,
    /// A year heading has no second word, or that word is no year.
    MalformedHeading,
    /// The date text of a listing item could not be read.
    Date(DateParseError),
    /// The page is longer than the parser takes.
    PageTooLong,
}

/// The mathematical value of an `ExtractError`.
pub enum ExtractFailure {
    MissingYear,
    MissingTitle,
    MissingDate,
    MalformedHeading,
    Date(DateFailure),
    PageTooLong,
}

/// Why a venue gave no shows.
#[derive(Clone, Debug, PartialEq, Eq)]
pub enum VenueError {
    /// The page could not be fetched; the text says why.
    Fetch(String),
    /// The page was fetched and could not be read.
    Extract(ExtractError),
}

/// The mathematical value of a `VenueError`.
pub enum VenueFailure {
    Fetch(Seq<char>),
    Extract(ExtractFailure),
}

pub open spec fn text_view(t: Option<String>) -> Option<Seq<char>> {
    match t {
        Some(s) => Some(s@),
        None => None,
    }
}

impl View for ListingChild {
    type V = ChildView;

    open spec fn view(&self) -> ChildView {
        match self {
            ListingChild::YearHeading(t) => ChildView::YearHeading(t@),
            ListingChild::ListingItem { title, date_text } => ChildView::ListingItem {
                title: text_view(*title),
                date_text: text_view(*date_text),
            },
            ListingChild::Other => ChildView::Other,
        }
    }
}

impl View for Show {
    type V = ShowView;

    open spec fn view(&self) -> ShowView {
        ShowView { name: self.name@, date: self.date }
    }
}

impl View for ExtractError {
    type V = ExtractFailure;

    open spec fn view(&self) -> ExtractFailure {
        match self {
            ExtractError::MissingYear => ExtractFailure::MissingYear,
            ExtractError::MissingTitle => ExtractFailure::MissingTitle,
            ExtractError::MissingDate => ExtractFailure::MissingDate,
            ExtractError::MalformedHeading => ExtractFailure::MalformedHeading,
            ExtractError::Date(e) => ExtractFailure::Date(e@),
            ExtractError::PageTooLong => ExtractFailure::PageTooLong,
        }
    }
}

impl View for VenueError {
    type V = VenueFailure;

    open spec fn view(&self) -> VenueFailure {
        match self {
            VenueError::Fetch(m) => VenueFailure::Fetch(m@),
            VenueError::Extract(e) => VenueFailure::Extract(e@),
        }
    }
}

pub open spec fn child_views(children: Seq<ListingChild>) -> Seq<ChildView> {
    Seq::new(children.len(), |i: int| children[i]@)
}

pub open spec fn show_views(shows: Seq<Show>) -> Seq<ShowView> {
    Seq::new(shows.len(), |i: int| shows[i]@)
}

/// The outcome of an extraction, by the views of its shows or of its error.
pub open spec fn extraction(r: Result<Vec<Show>, ExtractError>) -> Result<
    Seq<ShowView>,
    ExtractFailure,
> {
    match r {
        Ok(shows) => Ok(show_views(shows@)),
        Err(e) => Err(e@),
    }
}

/// The outcome for one venue, by the views of its shows or of its error.
pub open spec fn venue_outcome(r: Result<Vec<Show>, VenueError>) -> Result<
    Seq<ShowView>,
    VenueFailure,
> {
    match r {
        Ok(shows) => Ok(show_views(shows@)),
        Err(e) => Err(e@),
    }
}

/// The year that a heading gives: its second word, read as a decimal
/// number that fits 32 bits. One `+` may stand before the digits.
pub open spec fn heading_year(s: Seq<char>) -> Option<u32> {
    let first = skip(s, CharClass::Space, 0);
    let gap = skip(s, CharClass::NonSpace, first);
    let second = skip(s, CharClass::Space, gap);
    let end = skip(s, CharClass::NonSpace, second);
    let word = s.subrange(second, end);
    let digits = if word.len() > 0 && word[0] == '+' {
        word.drop_first()
    } else {
        word
    };
    match decimal(digits, u32::MAX as int) {
        Some(n) => Some(n as u32),
        None => None,
    }
}

/// The show of a listing item under the year in effect.
pub open spec fn show_of_item(
    year: Option<u32>,
    title: Option<Seq<char>>,
    date_text: Option<Seq<char>>,
) -> Result<ShowView, ExtractFailure> {
    match (year, title, date_text) {
        (None, _, _) => Err(ExtractFailure::MissingYear),
        (Some(_), None, _) => Err(ExtractFailure::MissingTitle),
        (Some(_), Some(_), None) => Err(ExtractFailure::MissingDate),
        (Some(y), Some(name), Some(text)) => match date_of_text(text, y) {
            Ok(date) => Ok(ShowView { name, date }),
            Err(e) => Err(ExtractFailure::Date(e)),
        },
    }
}

/// The walk from child `i` on, with the year in effect and the shows so
/// far: a heading sets the year, a listing item adds its show, anything
/// else is passed over, and the first failure ends the walk.
pub open spec fn shows_from(
    children: Seq<ChildView>,
    i: int,
    year: Option<u32>,
    shows: Seq<ShowView>,
) -> Result<Seq<ShowView>, ExtractFailure>
    decreases children.len() - i,
{
    if i < 0 || i >= children.len() {
        Ok(shows)
    } else {
        match children[i] {
            ChildView::YearHeading(text) => match heading_year(text) {
                Some(y) => shows_from(children, i + 1, Some(y), shows),
                None => Err(ExtractFailure::MalformedHeading),
            },
            ChildView::ListingItem { title, date_text } => match show_of_item(
                year,
                title,
                date_text,
            ) {
                Ok(show) => shows_from(children, i + 1, year, shows.push(show)),
                Err(e) => Err(e),
            },
            ChildView::Other => shows_from(children, i + 1, year, shows),
        }
    }
}

/// The shows of a production list, walked from its first child with no
/// year in effect.
pub open spec fn shows_of(children: Seq<ChildView>) -> Result<Seq<ShowView>, ExtractFailure> {
    shows_from(children, 0, None, Seq::empty())
}

/// What the walk reads from one child of the production list.
pub open spec fn child_of(d: Document, node: usize) -> ChildView {
    if node_has_name(d, node, "div"@) {
        if node_has_class(d, node, "production-list-item"@) {
            let details = found_under_node(d, node, "div"@, "production-details"@);
            let titles = found_by_name(d, details, "h3"@);
            let dates = found_by_name_and_class(d, details, "p"@, "date"@);
            ChildView::ListingItem {
                title: if titles.len() > 0 {
                    Some(node_text(d, titles[0]))
                } else {
                    None
                },
                date_text: if dates.len() > 0 {
                    Some(node_text(d, dates[0]))
                } else {
                    None
                },
            }
        } else {
            ChildView::Other
        }
    } else if node_has_name(d, node, "h2"@) {
        ChildView::YearHeading(node_text(d, node))
    } else {
        ChildView::Other
    }
}

/// The production lists of a page: the elements whose children are walked.
pub open spec fn production_lists(text: Seq<char>) -> Seq<usize> {
    found_in_document(parsed_document(text), "div"@, "list-productions"@)
}

/// The nodes that are children of the production lists of a page, in
/// document order.
pub open spec fn page_nodes(text: Seq<char>) -> Seq<usize> {
    children_of(parsed_document(text), production_lists(text))
}

/// The node is a listing item that holds no details element.
pub open spec fn lacks_details(d: Document, node: usize) -> bool {
    &&& node_has_name(d, node, "div"@)
    &&& node_has_class(d, node, "production-list-item"@)
    &&& found_under_node(d, node, "div"@, "production-details"@).len() == 0
}

/// A listing item of which neither title nor date text was found.
pub open spec fn bare_item() -> ChildView {
    ChildView::ListingItem { title: None, date_text: None }
}

/// The children of the production lists of a page, in document order. A
/// page without a production list has none.
pub open spec fn listing_of(text: Seq<char>) -> Seq<ChildView> {
    let d = parsed_document(text);
    let children = page_nodes(text);
    Seq::new(children.len(), |i: int| child_of(d, children[i]))
}

/// The shows of a page: those of its production lists, unless the page is
/// longer than the parser takes.
pub open spec fn shows_of_page(text: Seq<char>) -> Result<Seq<ShowView>, ExtractFailure> {
    if text.len() > MAX_PAGE_CHARS {
        Err(ExtractFailure::PageTooLong)
    } else {
        shows_of(listing_of(text))
    }
}

/// The outcome for a venue whose fetch gave `page`: the fetch's failure, or
/// what the walk of the page gives.
pub open spec fn venue_of(page: Result<String, String>) -> Result<Seq<ShowView>, VenueFailure> {
    match page {
        Err(why) => Err(VenueFailure::Fetch(why@)),
        Ok(body) => match shows_of_page(body@) {
            Ok(shows) => Ok(shows),
            Err(e) => Err(VenueFailure::Extract(e)),
        },
    }
}

/// The number of listing items from child `i` on.
pub open spec fn items_from(children: Seq<ChildView>, i: int) -> nat
    decreases children.len() - i,
{
    if i < 0 || i >= children.len() {
        0
    } else if children[i] is ListingItem {
        1 + items_from(children, i + 1)
    } else {
        items_from(children, i + 1)
    }
}

/// A listing item that no year heading precedes makes the walk fail: no
/// show is ever given without a year.
pub proof fn lemma_item_before_heading(children: Seq<ChildView>, item: int)
    requires
        0 <= item < children.len(),
        children[item] is ListingItem,
        forall|k: int| 0 <= k < item ==> !(#[trigger] children[k] is YearHeading),
    ensures
        shows_of(children) is Err,
{
    lemma_walk_without_year(children, item, 0, Seq::empty());
}

/// From any child at or before such an item, with no year in effect, the
/// walk fails.
pub proof fn lemma_walk_without_year(
    children: Seq<ChildView>,
    item: int,
    i: int,
    shows: Seq<ShowView>,
)
    requires
        0 <= i <= item < children.len(),
        children[item] is ListingItem,
        forall|k: int| i <= k < item ==> !(#[trigger] children[k] is YearHeading),
    ensures
        shows_from(children, i, None, shows) is Err,
    decreases item - i,
{
    if i < item {
        assert(!(children[i] is YearHeading));
        lemma_walk_without_year(children, item, i + 1, shows);
    }
}

/// A walk that succeeds gives as many shows as the list has listing items.
pub proof fn lemma_show_count(children: Seq<ChildView>)
    requires
        shows_of(children) is Ok,
    ensures
        shows_of(children)->Ok_0.len() == items_from(children, 0),
{
    lemma_one_show_per_item(children, 0, None, Seq::empty());
}

/// From child `i` on, a walk that succeeds adds one show for each listing
/// item, and none for anything else.
pub proof fn lemma_one_show_per_item(
    children: Seq<ChildView>,
    i: int,
    year: Option<u32>,
    shows: Seq<ShowView>,
)
    requires
        0 <= i <= children.len(),
        shows_from(children, i, year, shows) is Ok,
    ensures
        shows_from(children, i, year, shows)->Ok_0.len() == shows.len() + items_from(children, i),
    decreases children.len() - i,
{
    if i < children.len() {
        match children[i] {
            ChildView::YearHeading(text) => {
                lemma_one_show_per_item(children, i + 1, heading_year(text), shows);
            },
            ChildView::ListingItem { title, date_text } => {
                let show = show_of_item(year, title, date_text)->Ok_0;
                lemma_one_show_per_item(children, i + 1, year, shows.push(show));
            },
            ChildView::Other => {
                lemma_one_show_per_item(children, i + 1, year, shows);
            },
        }
    }
}

/// A list that holds a year heading and then two listing items, each with a
/// title and a date text that reads as a date of the heading's year, gives
/// exactly the two shows, in that order, under that year.
pub proof fn lemma_heading_and_two_items(
    heading: Seq<char>,
    year: u32,
    first_name: Seq<char>,
    first_date: Seq<char>,
    second_name: Seq<char>,
    second_date: Seq<char>,
)
    requires
        heading_year(heading) == Some(year),
        date_of_text(first_date, year) is Ok,
        date_of_text(second_date, year) is Ok,
    ensures
        shows_of(
            seq![
                ChildView::YearHeading(heading),
                ChildView::ListingItem { title: Some(first_name), date_text: Some(first_date) },
                ChildView::ListingItem { title: Some(second_name), date_text: Some(second_date) },
            ],
        ) == Ok::<Seq<ShowView>, ExtractFailure>(
            seq![
                ShowView { name: first_name, date: date_of_text(first_date, year)->Ok_0 },
                ShowView { name: second_name, date: date_of_text(second_date, year)->Ok_0 },
            ],
        ),
{
    let children = seq![
        ChildView::YearHeading(heading),
        ChildView::ListingItem { title: Some(first_name), date_text: Some(first_date) },
        ChildView::ListingItem { title: Some(second_name), date_text: Some(second_date) },
    ];
    let first = ShowView { name: first_name, date: date_of_text(first_date, year)->Ok_0 };
    let second = ShowView { name: second_name, date: date_of_text(second_date, year)->Ok_0 };
    let none = Seq::<ShowView>::empty();
    assert(shows_from(children, 3, Some(year), none.push(first).push(second)) == Ok::<
        Seq<ShowView>,
        ExtractFailure,
    >(none.push(first).push(second)));
    assert(shows_from(children, 2, Some(year), none.push(first)) == shows_from(
        children,
        3,
        Some(year),
        none.push(first).push(second),
    ));
    assert(shows_from(children, 1, Some(year), none) == shows_from(
        children,
        2,
        Some(year),
        none.push(first),
    ));
    assert(shows_from(children, 0, None, none) == shows_from(children, 1, Some(year), none));
    assert(none.push(first).push(second) =~= seq![first, second]);
}

/// A page within the length bound whose production lists hold a year
/// heading and then two such listing items gives exactly the two shows, in
/// document order, under the heading's year.
pub proof fn lemma_page_with_heading_and_two_items(
    text: Seq<char>,
    heading: Seq<char>,
    year: u32,
    first_name: Seq<char>,
    first_date: Seq<char>,
    second_name: Seq<char>,
    second_date: Seq<char>,
)
    requires
        text.len() <= MAX_PAGE_CHARS,
        listing_of(text) == seq![
            ChildView::YearHeading(heading),
            ChildView::ListingItem { title: Some(first_name), date_text: Some(first_date) },
            ChildView::ListingItem { title: Some(second_name), date_text: Some(second_date) },
        ],
        heading_year(heading) == Some(year),
        date_of_text(first_date, year) is Ok,
        date_of_text(second_date, year) is Ok,
    ensures
        shows_of_page(text) == Ok::<Seq<ShowView>, ExtractFailure>(
            seq![
                ShowView { name: first_name, date: date_of_text(first_date, year)->Ok_0 },
                ShowView { name: second_name, date: date_of_text(second_date, year)->Ok_0 },
            ],
        ),
{
    lemma_heading_and_two_items(heading, year, first_name, first_date, second_name, second_date);
}

/// Reads the year from the text of a year heading.
pub fn year_of_heading(text: &str) -> (r: Option<u32>)
    ensures
        r == heading_year(text@),
{
    let v = to_chars(text);
    let first: usize = scan(&v, CharClass::Space, 0);
    let gap: usize = scan(&v, CharClass::NonSpace, first);
    let second: usize = scan(&v, CharClass::Space, gap);
    let end: usize = scan(&v, CharClass::NonSpace, second);
    let signed: bool = second < end && v[second] == '+';
    let from: usize = if signed {
        second + 1
    } else {
        second
    };
    proof {
        let word = v@.subrange(second as int, end as int);
        if signed {
            assert(word[0] == v@[second as int]);
            assert(word.drop_first() =~= v@.subrange(from as int, end as int));
        } else if second < end {
            assert(word[0] == v@[second as int]);
        }
    }
    parse_decimal(&v, from, end, 0xffff_ffff)
}

/// Makes the show of a listing item under the year in effect.
pub fn show_from_item(year: Option<u32>, title: &Option<String>, date_text: &Option<String>) -> (r:
    Result<Show, ExtractError>)
    ensures
        match show_of_item(year, text_view(*title), text_view(*date_text)) {
            Ok(show) => r is Ok && r->Ok_0@ == show,
            Err(e) => r is Err && r->Err_0@ == e,
        },
{
    let y: u32 = match year {
        Some(y) => y,
        None => {
            return Err(ExtractError::MissingYear);
        },
    };
    let name: String = match title {
        Some(t) => t.clone(),
        None => {
            return Err(ExtractError::MissingTitle);
        },
    };
    let text: &String = match date_text {
        Some(t) => t,
        None => {
            return Err(ExtractError::MissingDate);
        },
    };
    match date_from_text(text.as_str(), y) {
        Ok(date) => Ok(Show { name, date }),
        Err(e) => Err(ExtractError::Date(e)),
    }
}

/// Walks the children of a production list in document order and gives the
/// shows of its listing items, each under the year of the heading before
/// it, or the first failure.
pub fn extract_shows(children: &Vec<ListingChild>) -> (r: Result<Vec<Show>, ExtractError>)
    ensures
        extraction(r) == shows_of(child_views(children@)),
{
    let ghost model = child_views(children@);
    let mut year: Option<u32> = None;
    let mut shows: Vec<Show> = Vec::new();
    let mut i: usize = 0;
    proof {
        assert(show_views(shows@) =~= Seq::<ShowView>::empty());
    }
    while i < children.len()
        invariant
            i <= children.len(),
            model == child_views(children@),
            shows_of(model) == shows_from(model, i as int, year, show_views(shows@)),
        decreases children.len() - i,
    {
        proof {
            assert(model[i as int] == children@[i as int]@);
        }
        let ghost before = show_views(shows@);
        match &children[i] {
            ListingChild::YearHeading(text) => {
                match year_of_heading(text.as_str()) {
                    Some(y) => {
                        year = Some(y);
                    },
                    None => {
                        return Err(ExtractError::MalformedHeading);
                    },
                }
            },
            ListingChild::ListingItem { title, date_text } => {
                match show_from_item(year, title, date_text) {
                    Ok(show) => {
                        shows.push(show);
                        proof {
                            assert(show_views(shows@) =~= before.push(show@));
                        }
                    },
                    Err(e) => {
                        return Err(e);
                    },
                }
            },
            ListingChild::Other => {},
        }
        i += 1;
    }
    Ok(shows)
}

/// Reads from one child of the production list what the walk needs.
pub(crate) fn read_child(doc: &Document, node: usize) -> (r: ListingChild)
    requires
        is_parsed(*doc),
        node < node_count(*doc),
    ensures
        r@ == child_of(*doc, node),
        lacks_details(*doc, node) ==> r@ == bare_item(),
{
    if node_is_named(doc, node, "div") {
        if node_is_classed(doc, node, "production-list-item") {
            let details = node_find(doc, node, "div", "production-details");
            let titles = selection_find_name(doc, &details, "h3");
            let dates = selection_find_name_and_class(doc, &details, "p", "date");
            let title: Option<String> = if titles.len() > 0 {
                Some(text_of_node(doc, titles[0]))
            } else {
                None
            };
            let date_text: Option<String> = if dates.len() > 0 {
                Some(text_of_node(doc, dates[0]))
            } else {
                None
            };
            ListingChild::ListingItem { title, date_text }
        } else {
            ListingChild::Other
        }
    } else if node_is_named(doc, node, "h2") {
        ListingChild::YearHeading(text_of_node(doc, node))
    } else {
        ListingChild::Other
    }
}

/// Parses a page and reads the children of its production lists, in
/// document order. A page that is too long for the parser is refused, and
/// a page without a production list has no children.
pub fn listing_children(body: &str) -> (r: Result<Vec<ListingChild>, ExtractError>)
    ensures
        match r {
            Ok(children) => body@.len() <= MAX_PAGE_CHARS && child_views(children@) == listing_of(
                body@,
            ),
            Err(e) => body@.len() > MAX_PAGE_CHARS && e@ == ExtractFailure::PageTooLong,
        },
        r is Ok && production_lists(body@).len() == 0 ==> r->Ok_0@.len() == 0,
        r is Ok ==> forall|k: int|
            0 <= k < r->Ok_0@.len() && lacks_details(
                parsed_document(body@),
                #[trigger] page_nodes(body@)[k],
            ) ==> r->Ok_0@[k]@ == bare_item(),
{
    if body.unicode_len() > MAX_PAGE_CHARS {
        return Err(ExtractError::PageTooLong);
    }
    let doc = parse_document(body);
    let containers = document_find(&doc, "div", "list-productions");
    let nodes = selection_children(&doc, &containers);
    let mut children: Vec<ListingChild> = Vec::new();
    let mut i: usize = 0;
    while i < nodes.len()
        invariant
            i <= nodes.len(),
            is_parsed(doc),
            all_nodes(doc, nodes@),
            children.len() == i,
            forall|k: int| 0 <= k < i ==> (#[trigger] children@[k])@ == child_of(doc, nodes@[k]),
            forall|k: int|
                0 <= k < i && lacks_details(doc, #[trigger] nodes@[k]) ==> children@[k]@
                    == bare_item(),
        decreases nodes.len() - i,
    {
        children.push(read_child(&doc, nodes[i]));
        i += 1;
    }
    proof {
        assert(child_views(children@) =~= listing_of(body@));
    }
    Ok(children)
}

/// The shows of a listing page, from its text. A page without a production
/// list gives no shows.
pub fn extract_page(body: &str) -> (r: Result<Vec<Show>, ExtractError>)
    ensures
        extraction(r) == shows_of_page(body@),
        body@.len() <= MAX_PAGE_CHARS && production_lists(body@).len() == 0 ==> r is Ok
            && r->Ok_0@.len() == 0,
{
    match listing_children(body) {
        Ok(children) => {
            let r = extract_shows(&children);
            proof {
                if children@.len() == 0 {
                    assert(show_views(r->Ok_0@).len() == 0);
                }
            }
            r
        },
        Err(e) => Err(e),
    }
}

/// The shows of one venue, from what the fetch of its listing page gave:
/// the page's text, or why it could not be had. A failed fetch is this
/// venue's failure, returned as a value.
pub fn extract_theatre(page: &Result<String, String>) -> (r: Result<Vec<Show>, VenueError>)
    ensures
        venue_outcome(r) == venue_of(*page),
        page is Err ==> r is Err && r->Err_0@ == VenueFailure::Fetch(page->Err_0@),
        page is Ok && page->Ok_0@.len() <= MAX_PAGE_CHARS && production_lists(page->Ok_0@).len()
            == 0 ==> r is Ok && r->Ok_0@.len() == 0,
{
    match page {
        Err(why) => Err(VenueError::Fetch(why.clone())),
        Ok(body) => match extract_page(body.as_str()) {
            Ok(shows) => Ok(shows),
            Err(e) => Err(VenueError::Extract(e)),
        },
    }
}

/// The outcome of each venue of a run, in the order of the venues. What one
/// venue gives depends on its own page alone: a failed fetch or an
/// unreadable page leaves the outcomes of the others as they are.
pub fn extract_all(pages: &Vec<Result<String, String>>) -> (r: Vec<Result<Vec<Show>, VenueError>>)
    ensures
        r.len() == pages.len(),
        forall|i: int|
            0 <= i < pages.len() ==> venue_outcome(#[trigger] r@[i]) == venue_of(pages@[i]),
{
    let mut outcomes: Vec<Result<Vec<Show>, VenueError>> = Vec::new();
    let mut i: usize = 0;
    while i < pages.len()
        invariant
            i <= pages.len(),
            outcomes.len() == i,
            forall|k: int|
                0 <= k < i ==> venue_outcome(#[trigger] outcomes@[k]) == venue_of(pages@[k]),
        decreases pages.len() - i,
    {
        outcomes.push(extract_theatre(&pages[i]));
        i += 1;
    }
    outcomes
}

} // verus!

use theatre_listings::date::{Date, DateParseError, RawDate};
use theatre_listings::listing::{
    extract_all, extract_page, extract_shows, extract_theatre, listing_children, show_from_item,
    year_of_heading, ExtractError, ListingChild, Show, VenueError,
};
use theatre_listings::page::MAX_PAGE_CHARS;

fn heading(text: &str) -> ListingChild {
    ListingChild::YearHeading(text.to_string())
}

fn item(title: &str, date_text: &str) -> ListingChild {
    ListingChild::ListingItem {
        title: Some(title.to_string()),
        date_text: Some(date_text.to_string()),
    }
}

fn single(name: &str, day: i32, month: i8, year: u32) -> Show {
    Show { name: name.to_string(), date: Date::Single(RawDate { day, month, year }) }
}

fn page(list: &str) -> String {
    format!(
        "<html><head><title>What's on</title></head><body><div id=\"main\">\
         <div class=\"list-productions\">{}</div></div></body></html>",
        list
    )
}

fn entry(title: &str, date_text: &str) -> String {
    format!(
        "<div class=\"production-list-item\"><img src=\"x.png\">\
         <div class=\"production-details\"><h3>{}</h3><p class=\"date\">{}</p>\
         <p class=\"blurb\">A play.</p></div></div>",
        title, date_text
    )
}

#[test]
fn heading_year_is_the_second_word() {
    assert_eq!(year_of_heading("Season 2024"), Some(2024));
    assert_eq!(year_of_heading("  Autumn\t\n2023  and more"), Some(2023));
    assert_eq!(year_of_heading("Season 0"), Some(0));
    assert_eq!(year_of_heading("Season 4294967295"), Some(4294967295));
}

#[test]
fn heading_year_may_carry_one_plus() {
    assert_eq!(year_of_heading("Season +2024"), Some(2024));
    assert_eq!(year_of_heading("Season +0"), Some(0));
    assert_eq!(year_of_heading("Season +4294967295 on"), Some(4294967295));
    assert_eq!(year_of_heading("Season +"), None);
    assert_eq!(year_of_heading("Season ++2024"), None);
    assert_eq!(year_of_heading("Season +-2024"), None);
    assert_eq!(year_of_heading("Season 2024+"), None);
    assert_eq!(year_of_heading("Season + 2024"), None);
    assert_eq!(year_of_heading("+2024"), None);
    assert_eq!(year_of_heading("Season +4294967296"), None);
    assert_eq!(
        extract_shows(&vec![heading("Season +2024"), item("Hamlet", "25 December")]),
        Ok(vec![single("Hamlet", 25, 11, 2024)])
    );
}

#[test]
fn malformed_headings_give_no_year() {
    assert_eq!(year_of_heading(""), None);
    assert_eq!(year_of_heading("   "), None);
    assert_eq!(year_of_heading("2024"), None);
    assert_eq!(year_of_heading("Season"), None);
    assert_eq!(year_of_heading("Season twenty"), None);
    assert_eq!(year_of_heading("Season 2024/25"), None);
    assert_eq!(year_of_heading("Season 4294967296"), None);
    assert_eq!(year_of_heading("Season -1"), None);
}

#[test]
fn two_items_under_one_heading() {
    let children =
        vec![heading("Season 2024"), item("Hamlet", "25 December"), item("Macbeth", "3 May")];
    assert_eq!(
        extract_shows(&children),
        Ok(vec![single("Hamlet", 25, 11, 2024), single("Macbeth", 3, 4, 2024)])
    );
}

#[test]
fn each_item_takes_the_year_of_the_heading_before_it() {
    let children = vec![
        heading("Season 2023"),
        item("A", "1 January"),
        ListingChild::Other,
        heading("Season 2024"),
        item("B", "2 February - 3 March"),
        heading("Season 2025"),
        heading("Season 2026"),
        item("C", "4th April"),
    ];
    assert_eq!(
        extract_shows(&children),
        Ok(vec![
            single("A", 1, 0, 2023),
            Show {
                name: "B".to_string(),
                date: Date::Range {
                    start: RawDate { day: 2, month: 1, year: 2024 },
                    end: RawDate { day: 3, month: 2, year: 2024 },
                },
            },
            single("C", 4, 3, 2026),
        ])
    );
}

#[test]
fn item_before_any_heading_fails() {
    assert_eq!(extract_shows(&vec![item("Hamlet", "25 December")]), Err(ExtractError::MissingYear));
    assert_eq!(
        extract_shows(&vec![
            ListingChild::Other,
            item("Hamlet", "25 December"),
            heading("Season 2024")
        ]),
        Err(ExtractError::MissingYear)
    );
    assert_eq!(
        extract_shows(&vec![ListingChild::ListingItem { title: None, date_text: None }]),
        Err(ExtractError::MissingYear)
    );
}

#[test]
fn item_without_title_or_date_fails() {
    let no_title = ListingChild::ListingItem { title: None, date_text: Some("1 May".to_string()) };
    let no_date = ListingChild::ListingItem { title: Some("X".to_string()), date_text: None };
    let neither = ListingChild::ListingItem { title: None, date_text: None };
    assert_eq!(
        extract_shows(&vec![heading("Season 2024"), no_title]),
        Err(ExtractError::MissingTitle)
    );
    assert_eq!(
        extract_shows(&vec![heading("Season 2024"), no_date]),
        Err(ExtractError::MissingDate)
    );
    assert_eq!(
        extract_shows(&vec![heading("Season 2024"), neither]),
        Err(ExtractError::MissingTitle)
    );
}

#[test]
fn malformed_heading_fails_the_walk() {
    assert_eq!(
        extract_shows(&vec![heading("Season 2024"), item("A", "1 May"), heading("Coming soon")]),
        Err(ExtractError::MalformedHeading)
    );
    assert_eq!(extract_shows(&vec![heading("2024")]), Err(ExtractError::MalformedHeading));
}

#[test]
fn first_bad_date_fails_the_walk() {
    let children = vec![
        heading("Season 2024"),
        item("A", "1 May"),
        item("B", "2 Mai"),
        item("C", "1-2-3"),
    ];
    assert_eq!(
        extract_shows(&children),
        Err(ExtractError::Date(DateParseError::UnrecognizedMonth("Mai".to_string())))
    );
    assert_eq!(
        extract_shows(&vec![heading("Season 2024"), item("C", "1-2-3")]),
        Err(ExtractError::Date(DateParseError::MalformedRange))
    );
    assert_eq!(
        extract_shows(&vec![heading("Season 2024"), item("C", "soon")]),
        Err(ExtractError::Date(DateParseError::InvalidDay))
    );
}

#[test]
fn nothing_to_walk_gives_no_shows() {
    assert_eq!(extract_shows(&Vec::new()), Ok(Vec::new()));
    assert_eq!(
        extract_shows(&vec![ListingChild::Other, heading("Season 2024"), ListingChild::Other]),
        Ok(Vec::new())
    );
}

#[test]
fn show_of_one_item() {
    let title = Some("Hamlet".to_string());
    let date = Some("25 December".to_string());
    assert_eq!(show_from_item(Some(2024), &title, &date), Ok(single("Hamlet", 25, 11, 2024)));
    assert_eq!(show_from_item(None, &title, &date), Err(ExtractError::MissingYear));
    assert_eq!(show_from_item(Some(2024), &None, &date), Err(ExtractError::MissingTitle));
    assert_eq!(show_from_item(Some(2024), &title, &None), Err(ExtractError::MissingDate));
}

#[test]
fn page_with_one_heading_and_two_items() {
    let body = page(&format!(
        "\n  <h2>Season 2024</h2>\n  {}\n  {}\n",
        entry("Hamlet", "25 December"),
        entry("Macbeth", "3rd September - 10th September")
    ));
    assert_eq!(
        extract_page(&body),
        Ok(vec![
            single("Hamlet", 25, 11, 2024),
            Show {
                name: "Macbeth".to_string(),
                date: Date::Range {
                    start: RawDate { day: 3, month: 8, year: 2024 },
                    end: RawDate { day: 10, month: 8, year: 2024 },
                },
            },
        ])
    );
}

#[test]
fn page_children_are_read_in_document_order() {
    let body = page(&format!(
        "<h2>Season 2024</h2>{}<p>An aside</p><div class=\"banner\">Ad</div><!-- note -->\
         <h2>Season <b>2025</b></h2>\
         <div class=\"production-list-item\"><div class=\"production-details\">\
         <p class=\"date\">1 May</p></div></div>\
         <div class=\"production-list-item\"><h3>Outside</h3>\
         <div class=\"production-details\"><h3>First</h3><h3>Second</h3></div></div>\
         <div class=\"production-list-item\"></div>",
        entry("Hamlet", "25 December")
    ));
    assert_eq!(
        listing_children(&body),
        Ok(vec![
            heading("Season 2024"),
            item("Hamlet", "25 December"),
            ListingChild::Other,
            ListingChild::Other,
            ListingChild::Other,
            heading("Season 2025"),
            ListingChild::ListingItem { title: None, date_text: Some("1 May".to_string()) },
            ListingChild::ListingItem { title: Some("First".to_string()), date_text: None },
            ListingChild::ListingItem { title: None, date_text: None },
        ])
    );
}

#[test]
fn page_item_takes_the_first_title_and_the_first_date() {
    let body = page(
        "<h2>Season 2024</h2>\
         <div class=\"production-list-item extra\">\
         <div class=\"wide production-details\"><div><h3>Deep <i>Title</i></h3></div>\
         <p class=\"note\">2 June</p><p class=\"small date\">1 May</p><p class=\"date\">3 July</p>\
         <h3>Later</h3></div></div>",
    );
    assert_eq!(listing_children(&body).unwrap()[1], item("Deep Title", "1 May"));
    assert_eq!(extract_page(&body), Ok(vec![single("Deep Title", 1, 4, 2024)]));
}

#[test]
fn page_item_without_details_has_neither_title_nor_date() {
    let body = page(
        "<h2>Season 2024</h2><div class=\"production-list-item\"><h3>Loose</h3>\
         <p class=\"date\">1 May</p></div>",
    );
    assert_eq!(
        listing_children(&body),
        Ok(vec![
            heading("Season 2024"),
            ListingChild::ListingItem { title: None, date_text: None },
        ])
    );
    assert_eq!(extract_page(&body), Err(ExtractError::MissingTitle));
}

#[test]
fn page_item_before_any_heading_fails() {
    let body =
        page(&format!("{}<h2>Season 2024</h2>", entry("Hamlet", "25 December")));
    assert_eq!(extract_page(&body), Err(ExtractError::MissingYear));
}

#[test]
fn page_without_a_production_list_has_no_shows() {
    assert_eq!(extract_page(""), Ok(Vec::new()));
    assert_eq!(
        extract_page("<html><body><h2>Season 2024</h2><p>Closed.</p></body></html>"),
        Ok(Vec::new())
    );
    assert_eq!(listing_children("<div class=\"other\"><h2>Season 2024</h2></div>"), Ok(Vec::new()));
    assert_eq!(
        extract_page("<div class=\"list-productions\"></div><div class=\"production-list-item\"></div>"),
        Ok(Vec::new())
    );
}

#[test]
fn page_items_outside_the_list_are_not_read() {
    let body = format!(
        "<html><body><h2>Season 1999</h2>{}<div class=\"list-productions\">\
         <h2>Season 2024</h2><div>{}</div>{}</div></body></html>",
        entry("Before", "1 May"),
        entry("Nested", "2 May"),
        entry("Listed", "3 May")
    );
    assert_eq!(extract_page(&body), Ok(vec![single("Listed", 3, 4, 2024)]));
}

#[test]
fn page_with_a_bad_date_fails() {
    let body = page(&format!(
        "<h2>Season 2024</h2>{}{}",
        entry("Hamlet", "25 Decembre"),
        entry("Macbeth", "3 May")
    ));
    assert_eq!(
        extract_page(&body),
        Err(ExtractError::Date(DateParseError::UnrecognizedMonth("Decembre".to_string())))
    );
}

#[test]
fn page_with_a_malformed_heading_fails() {
    let body = page(&format!("<h2>2024</h2>{}", entry("Hamlet", "25 December")));
    assert_eq!(extract_page(&body), Err(ExtractError::MalformedHeading));
}

#[test]
fn failed_fetch_leaves_the_other_venues_alone() {
    let good = page(&format!("<h2>Season 2024</h2>{}", entry("Hamlet", "25 December")));
    let bad = page(&entry("Hamlet", "25 December"));
    let pages = vec![
        Err("connection refused".to_string()),
        Ok(good.clone()),
        Ok(bad),
        Err("404".to_string()),
        Ok(good),
    ];
    assert_eq!(
        extract_all(&pages),
        vec![
            Err(VenueError::Fetch("connection refused".to_string())),
            Ok(vec![single("Hamlet", 25, 11, 2024)]),
            Err(VenueError::Extract(ExtractError::MissingYear)),
            Err(VenueError::Fetch("404".to_string())),
            Ok(vec![single("Hamlet", 25, 11, 2024)]),
        ]
    );
    assert_eq!(extract_all(&Vec::new()), Vec::new());
}

#[test]
fn venue_with_a_failed_fetch_fails_alone() {
    assert_eq!(
        extract_theatre(&Err("connection reset".to_string())),
        Err(VenueError::Fetch("connection reset".to_string()))
    );
    assert_eq!(extract_theatre(&Err(String::new())), Err(VenueError::Fetch(String::new())));
}

#[test]
fn venue_with_a_fetched_page_is_walked() {
    let good = page(&format!("<h2>Season 2024</h2>{}", entry("Hamlet", "25 December")));
    assert_eq!(extract_theatre(&Ok(good)), Ok(vec![single("Hamlet", 25, 11, 2024)]));
    let bad = page(&format!("<h2>Season 2024</h2>{}", entry("Hamlet", "1-2-3")));
    assert_eq!(
        extract_theatre(&Ok(bad)),
        Err(VenueError::Extract(ExtractError::Date(DateParseError::MalformedRange)))
    );
    assert_eq!(extract_theatre(&Ok(String::new())), Ok(Vec::new()));
}

#[test]
fn page_longer_than_the_parser_takes_is_refused() {
    assert_eq!(MAX_PAGE_CHARS, 536_870_912);
    let long = " ".repeat(MAX_PAGE_CHARS + 1);
    assert_eq!(listing_children(&long), Err(ExtractError::PageTooLong));
    assert_eq!(extract_page(&long), Err(ExtractError::PageTooLong));
    assert_eq!(extract_theatre(&Ok(long)), Err(VenueError::Extract(ExtractError::PageTooLong)));
}

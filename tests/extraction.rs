use chrono::TimeZone;
use cineco_calendar::cinegestion::{
    date_parts, extract, movie_from_row, parse_id, parse_month, parse_movie, parse_title, row_start, ShowRow,
};
use cineco_calendar::datetime::CivilDateTime;
use cineco_calendar::html::{load_movies, show_rows};
use cineco_calendar::text::{parse_firstname, parse_names, same_text, trimmed};

fn local_instant(y: i32, mo: u32, d: u32, h: u32, mi: u32) -> i64 {
    chrono::Local.with_ymd_and_hms(y, mo, d, h, mi, 0).single().unwrap().timestamp()
}

fn row(cells: &[&str], names: Option<&str>) -> ShowRow {
    let mut cell_names: Vec<Option<String>> = cells.iter().map(|_| None).collect();
    if cells.len() >= 7 {
        cell_names[6] = names.map(|n| n.to_string());
    }
    ShowRow { cells: cells.iter().map(|c| c.to_string()).collect(), cell_names }
}

fn sample_row() -> ShowRow {
    row(
        &["42", "Benevoles", "Ste-Enimie", "samedi 14 juin 2025 20:30", "Movie Title <br>extra", "N/A", ""],
        Some("Jean Dupont, Marie Curie"),
    )
}

const PAGE: &str = "<table>\
<tr><th>id</th></tr>\
<tr data-type=\"show\"><td>42</td><td>Benevoles</td><td>Ste-Enimie</td><td>samedi 14 juin 2025 20:30</td><td>Movie Title <br>extra</td><td>N/A</td><td data-names=\"Jean Dupont, Marie Curie\"></td></tr>\
<tr data-type=\"show\"><td>43</td><td>Salarié</td><td>Ste-Enimie</td><td>dimanche 15 juin 2025 18:00</td><td>Other</td><td>N/A</td><td data-names=\"Paul Durand\"></td></tr>\
<tr data-type=\"show\"><td>44</td><td>Benevoles</td><td>Florac</td><td>dimanche 15 juin 2025 18:00</td><td>Elsewhere</td><td>N/A</td><td></td></tr>\
<tr data-type=\"show\"><td>45</td><td>Benevoles</td></tr>\
<tr data-type=\"show\"><td>46</td><td>Benevoles</td><td>Ste-Enimie</td><td>lundi 16 juin 2025 21:00</td><td>Second</td><td> Proj 2 </td><td></td></tr>\
</table>";

#[test]
fn month_names_are_french() {
    assert_eq!(parse_month("janvier"), 1);
    assert_eq!(parse_month("février"), 2);
    assert_eq!(parse_month("juin"), 6);
    assert_eq!(parse_month("août"), 8);
    assert_eq!(parse_month("novembre"), 11);
    assert_eq!(parse_month("décembre"), 12);
}

#[test]
fn unknown_month_falls_back_to_december() {
    assert_eq!(parse_month("june"), 12);
    assert_eq!(parse_month(""), 12);
}

#[test]
fn title_stops_at_first_line_break() {
    assert_eq!(parse_title("Movie Title <br>extra"), "Movie Title");
    assert_eq!(parse_title("  A <br>b<br>c"), "A");
    assert_eq!(parse_title("  Plain title \n"), "Plain title");
}

#[test]
fn first_name_of_token() {
    assert_eq!(parse_firstname("Jean Dupont"), Some("Jean".to_string()));
    assert_eq!(parse_firstname("Marie"), Some("Marie".to_string()));
    assert_eq!(parse_firstname("Hélène de la Tour"), Some("Hélène".to_string()));
    assert_eq!(parse_firstname("Jose\u{301} Dupont"), Some("Jose\u{301}".to_string()));
    assert_eq!(parse_firstname("Jean_Paul Dupont"), Some("Jean_Paul".to_string()));
    assert_eq!(parse_firstname("Jean-Pierre Dupont"), None);
    assert_eq!(parse_firstname(" Jean"), None);
    assert_eq!(parse_firstname(""), None);
}

#[test]
fn names_keep_order_and_duplicates_and_drop_malformed() {
    assert_eq!(parse_names("Jean Dupont, Marie Curie"), vec!["Jean", "Marie"]);
    assert_eq!(parse_names("Jean Dupont, -bad, Jean Valjean"), vec!["Jean", "Jean"]);
    assert_eq!(parse_names(""), Vec::<String>::new());
}

#[test]
fn trimming_and_equality() {
    assert_eq!(trimmed("  a b \t\n"), "a b");
    assert_eq!(trimmed("   "), "");
    assert!(same_text("Ste-Enimie", "Ste-Enimie"));
    assert!(!same_text("Ste-Enimie", "ste-enimie"));
}

#[test]
fn date_text_fields() {
    assert_eq!(
        date_parts("samedi 14 juin 2025 20:30"),
        Some(CivilDateTime { year: 2025, month: 6, day: 14, hour: 20, minute: 30 })
    );
    assert_eq!(
        date_parts("lundi 01 bogus 2024 07:05"),
        Some(CivilDateTime { year: 2024, month: 12, day: 1, hour: 7, minute: 5 })
    );
    assert_eq!(
        date_parts("<span>samedi 14 juin 2025 20:30</span>"),
        Some(CivilDateTime { year: 2025, month: 6, day: 14, hour: 20, minute: 30 })
    );
    assert_eq!(
        date_parts("Le samedi 14 juin 2025 20:30, salle 2"),
        Some(CivilDateTime { year: 2025, month: 6, day: 14, hour: 20, minute: 30 })
    );
    assert_eq!(
        date_parts("mardi 02 décembre 2025 09:05"),
        Some(CivilDateTime { year: 2025, month: 12, day: 2, hour: 9, minute: 5 })
    );
    assert_eq!(date_parts("samedi 14 juin 2025 20h30"), None);
    assert_eq!(date_parts("14 juin 2025 20:30"), None);
    assert_eq!(date_parts(""), None);
}

#[test]
fn session_numbers() {
    assert_eq!(parse_id("42"), Some(42));
    assert_eq!(parse_id("4294967295"), Some(4294967295));
    assert_eq!(parse_id("4294967296"), None);
    assert_eq!(parse_id("4x"), None);
    assert_eq!(parse_id(""), None);
}

#[test]
fn row_filter_rules() {
    assert!(row_start(&sample_row(), "Ste-Enimie").is_some());
    assert!(row_start(&sample_row(), "Florac").is_none());
    let salaried = row(
        &["42", "Salarié", "Ste-Enimie", "samedi 14 juin 2025 20:30", "T", "N/A", ""],
        None,
    );
    assert!(row_start(&salaried, "Ste-Enimie").is_none());
    let short = row(&["42", "Benevoles", "Ste-Enimie", "samedi 14 juin 2025 20:30", "T", "N/A"], None);
    assert!(row_start(&short, "Ste-Enimie").is_none());
    let bad_id = row(&["x", "Benevoles", "Ste-Enimie", "samedi 14 juin 2025 20:30", "T", "N/A", ""], None);
    assert!(row_start(&bad_id, "Ste-Enimie").is_none());
}

#[test]
fn row_record_from_given_instant() {
    let m = movie_from_row(&sample_row(), "Ste-Enimie", Some(1_000)).unwrap();
    assert_eq!(m.id, 42);
    assert_eq!(m.title, "Movie Title");
    assert_eq!(m.date, 1_000);
    assert_eq!(m.projector, "N/A");
    assert_eq!(m.assigned_to, vec!["Jean", "Marie"]);
    assert!(movie_from_row(&sample_row(), "Ste-Enimie", None).is_none());
    let no_names = row(&["7", "Benevoles", "V", "samedi 14 juin 2025 20:30", "T", " P ", ""], None);
    let m = movie_from_row(&no_names, "V", Some(5)).unwrap();
    assert!(m.assigned_to.is_empty());
    assert_eq!(m.projector, "P");
}

#[test]
fn sample_row_converts_local_time() {
    let m = parse_movie("Ste-Enimie", &sample_row()).unwrap();
    assert_eq!(m.date, local_instant(2025, 6, 14, 20, 30));
}

#[test]
fn salaried_row_is_excluded() {
    let salaried = row(
        &["42", "Salarié", "Ste-Enimie", "samedi 14 juin 2025 20:30", "Movie Title <br>extra", "N/A", ""],
        Some("Jean Dupont"),
    );
    assert!(parse_movie("Ste-Enimie", &salaried).is_none());
    assert!(extract(&vec![salaried], "Ste-Enimie").is_empty());
}

#[test]
fn extraction_keeps_order() {
    let second = row(&["46", "Benevoles", "Ste-Enimie", "lundi 16 juin 2025 21:00", "Second", "P2", ""], None);
    let other = row(&["44", "Benevoles", "Florac", "lundi 16 juin 2025 21:00", "X", "P", ""], None);
    let out = extract(&vec![sample_row(), other, second], "Ste-Enimie");
    let ids: Vec<u32> = out.iter().map(|m| m.id).collect();
    assert_eq!(ids, vec![42, 46]);
}

#[test]
fn page_rows_are_read() {
    let rows = show_rows(PAGE);
    assert_eq!(rows.len(), 5);
    assert_eq!(rows[0].cells.len(), 7);
    assert_eq!(rows[0].cells[4], "Movie Title <br>extra");
    assert_eq!(rows[0].cell_names[6], Some("Jean Dupont, Marie Curie".to_string()));
    assert_eq!(rows[0].cell_names[0], None);
    assert_eq!(rows[3].cells.len(), 2);
    assert_eq!(rows[3].cell_names.len(), 2);
}

#[test]
fn page_extraction_filters_and_is_idempotent() {
    let a = load_movies(PAGE, "Ste-Enimie");
    let b = load_movies(PAGE, "Ste-Enimie");
    let ids: Vec<u32> = a.iter().map(|m| m.id).collect();
    assert_eq!(ids, vec![42, 46]);
    assert_eq!(format!("{:?}", a), format!("{:?}", b));
    assert_eq!(a[1].projector, "Proj 2");
    assert!(load_movies("<p>nothing</p>", "Ste-Enimie").is_empty());
    assert!(load_movies("", "Ste-Enimie").is_empty());
    assert!(show_rows("").is_empty());
}

#[test]
fn cell_markup_keeps_attribute_order() {
    let page = "<table><tr data-type=\"show\"><td><a href=\"/f\" class=\"t\" id=\"m\">Film</a></td></tr></table>";
    for _ in 0..5 {
        let rows = show_rows(page);
        assert_eq!(rows[0].cells[0], "<a href=\"/f\" class=\"t\" id=\"m\">Film</a>");
    }
}

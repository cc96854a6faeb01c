use cineco_calendar::calendar::{
    decimal_text, generate_calendar, join_names, map_to_event, session_uid, Movie, CINECO_NAMESPACE,
};
use cineco_calendar::config::Config;
use cineco_calendar::error::Error;

fn movie(id: u32, title: &str, date: i64, names: &[&str]) -> Movie {
    Movie {
        id,
        title: title.to_string(),
        date,
        projector: "N/A".to_string(),
        assigned_to: names.iter().map(|n| n.to_string()).collect(),
    }
}

fn unescape(s: &str) -> String {
    let mut out = String::new();
    let mut chars = s.chars();
    while let Some(c) = chars.next() {
        if c == '\\' {
            match chars.next() {
                Some('n') => out.push('\n'),
                Some(d) => out.push(d),
                None => out.push('\\'),
            }
        } else {
            out.push(c);
        }
    }
    out
}

#[test]
fn decimal_texts() {
    assert_eq!(decimal_text(0), "0");
    assert_eq!(decimal_text(42), "42");
    assert_eq!(decimal_text(4294967295), "4294967295");
}

#[test]
fn names_joined() {
    assert_eq!(join_names(&vec!["Jean".to_string(), "Marie".to_string()]), "Jean, Marie");
    assert_eq!(join_names(&vec![]), "");
}

#[test]
fn uid_is_name_based_and_stable() {
    let expected = uuid::Uuid::new_v5(&uuid::Uuid::from_u128(CINECO_NAMESPACE), b"42").to_string();
    assert_eq!(session_uid(42), expected);
    assert_eq!(session_uid(42), session_uid(42));
    assert_ne!(session_uid(42), session_uid(43));
    assert_eq!(uuid::Uuid::from_u128(CINECO_NAMESPACE).to_string(), "4f345610-24a1-4c21-84cf-7f3efdf964d0");
    let a = map_to_event("Jean", &movie(42, "A", 0, &[]));
    let b = map_to_event("Marie", &movie(42, "B", 3600, &["Marie"]));
    assert_eq!(a.uid, b.uid);
}

#[test]
fn end_to_end_event() {
    let m = movie(42, "Movie Title", 1_749_925_800, &["Jean", "Marie"]);
    let e = map_to_event("Jean", &m);
    assert_eq!(e.summary, "Movie Title");
    assert_eq!(e.attendees, vec!["Jean", "Marie"]);
    assert!(e.confirmed);
    assert_eq!(e.start, 1_749_925_800);
    assert_eq!(e.end, 1_749_925_800 + 7200);
    assert_eq!(
        e.description,
        "Numéro de séance: 42\\nProjection du film 'Movie Title'\\nProjectioniste(s): Jean\\, Marie\\nProjo: N/A"
    );
}

#[test]
fn confirmed_only_when_viewer_assigned() {
    let m = movie(1, "T", 0, &["Jean", "Marie"]);
    assert!(map_to_event("Marie", &m).confirmed);
    assert!(!map_to_event("Paul", &m).confirmed);
    assert!(!map_to_event("jean", &m).confirmed);
    assert!(!map_to_event("Jean", &movie(1, "T", 0, &[])).confirmed);
}

#[test]
fn description_escapes_and_reads_back() {
    let m = movie(7, "A, B; C\\D", 0, &["Jean", "Ma;rie"]);
    let e = map_to_event("Jean", &m);
    let text = "Numéro de séance: 7\nProjection du film 'A, B; C\\D'\nProjectioniste(s): Jean, Ma;rie\nProjo: N/A";
    assert_eq!(unescape(&e.description), text);
    assert!(e.description.contains(r"A\, B\; C\\D"));
}

#[test]
fn calendar_document_has_one_event_per_session() {
    let movies = vec![
        movie(42, "Movie Title", 1_749_925_800, &["Jean", "Marie"]),
        movie(43, "Other", 1_750_000_000, &[]),
    ];
    let cal = generate_calendar(&movies, "Jean");
    assert_eq!(cal.events.len(), 2);
    assert!(cal.events[0].confirmed);
    assert!(!cal.events[1].confirmed);
    let text = cal.to_ics_string();
    assert!(text.starts_with("BEGIN:VCALENDAR"));
    assert!(text.contains("VERSION:2.0"));
    assert!(text.contains("PRODID:-//xyz Corp//NONSGML PDA Calendar Version 1.0//EN"));
    assert_eq!(text.matches("BEGIN:VEVENT").count(), 2);
    assert_eq!(text.matches("END:VEVENT").count(), 2);
    assert!(text.contains("DTSTART:20250614T183000Z"));
    assert!(text.contains("DTEND:20250614T203000Z"));
    assert_eq!(text.matches("STATUS:CONFIRMED").count(), 1);
    assert_eq!(text.matches("CATEGORIES:PROJECTION").count(), 2);
    assert_eq!(text.matches("CATEGORIES:CINEMA").count(), 2);
    assert!(text.contains("ATTENDEE:Jean"));
    assert!(text.contains("SUMMARY:Movie Title"));
    assert!(text.contains(&format!("UID:{}", session_uid(42))));
}

#[test]
fn summary_is_escaped_in_document() {
    let cal = generate_calendar(&vec![movie(9, "Lost, Found; A\\B", 0, &[])], "Jean");
    assert_eq!(cal.events[0].summary, "Lost, Found; A\\B");
    let text = cal.to_ics_string();
    assert!(text.contains(r"SUMMARY:Lost\, Found\; A\\B"));
    assert!(text.contains("DTSTART:19700101T000000Z"));
    assert!(text.contains("DTEND:19700101T020000Z"));
}

#[test]
fn empty_calendar_has_no_event() {
    let cal = generate_calendar(&vec![], "Jean");
    assert!(cal.events.is_empty());
    let text = cal.to_ics_string();
    assert_eq!(text.matches("BEGIN:VEVENT").count(), 0);
    assert!(text.contains("VERSION:2.0"));
    assert!(text.contains("PRODID:-//xyz Corp//NONSGML PDA Calendar Version 1.0//EN"));
}

#[test]
fn error_message() {
    let e = Error::Unreachable("Error while accessing cinegestion".to_string());
    assert_eq!(e.message(), "Unreachable: Error while accessing cinegestion");
}

#[test]
fn config_holds_credentials() {
    let c = Config { cinegestion_login: "me".to_string(), cinegestion_password: "pw".to_string() };
    assert_eq!(c.cinegestion_login, "me");
}

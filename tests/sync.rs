use tmp_event_sync::describe::{assemble_description, clean_body, event_description, make_prefix, make_suffix};
use tmp_event_sync::marker::{has_marker, is_mirrored, marker_text, occurs};
use tmp_event_sync::schedule::{classify, decide, format_event, plan_new_events, plan_new_events_now, Decision};
use tmp_event_sync::source::{attending_events_url, events_url, merge_responses, single_guild, SyncError};
use tmp_event_sync::text::{bytes_left, char_width, chars_of, fitting_prefix_len, strip_carriage_returns};
use tmp_event_sync::tmp_response::{EventIndex, Location, Response};

// 2030-01-01 00:00:00 UTC
const START_2030: i64 = 1_893_456_000;

fn event(id: u64, start_at: &str) -> EventIndex {
    EventIndex::new(
        id,
        format!("Convoy {id}"),
        Location::new("Berlin".to_string()),
        start_at.to_string(),
        Some("https://example.org/banner.png".to_string()),
        "Drive safe.\r\n![logo](https://example.org/l.png)Bring coffee.".to_string(),
        format!("/events/{id}"),
    )
}

#[test]
fn marker_text_spells_the_id() {
    assert_eq!(marker_text(42), "### 42 ###");
    assert_eq!(marker_text(0), "### 0 ###");
    assert_eq!(marker_text(u64::MAX), "### 18446744073709551615 ###");
}

#[test]
fn marker_is_found_anywhere_in_a_description() {
    assert!(has_marker("intro\n\n### 7 ###", 7));
    assert!(has_marker("### 7 ### and more", 7));
    assert!(!has_marker("### 77 ###", 7));
    assert!(!has_marker("#### 7###", 7));
    assert!(!has_marker("", 7));
}

#[test]
fn substring_search_on_characters() {
    let s: Vec<char> = "abcabd".chars().collect();
    assert!(occurs(&s, &"abd".chars().collect()));
    assert!(!occurs(&s, &"abe".chars().collect()));
    assert!(occurs(&s, &Vec::new()));
    assert!(!occurs(&Vec::new(), &"a".chars().collect()));
}

#[test]
fn mirrored_when_any_description_has_the_marker() {
    let existing = vec![None, Some("other".to_string()), Some("x ### 5 ### y".to_string())];
    assert!(is_mirrored(&existing, 5));
    assert!(!is_mirrored(&existing, 6));
    assert!(!is_mirrored(&Vec::new(), 5));
}

#[test]
fn decide_covers_each_outcome() {
    assert_eq!(decide(true, Some(100), 0), Decision::AlreadyMirrored);
    assert_eq!(decide(false, Some(100), 0), Decision::Create);
    assert_eq!(decide(false, Some(100), 100), Decision::InThePast);
    assert_eq!(decide(false, Some(99), 100), Decision::InThePast);
    assert_eq!(decide(false, None, 100), Decision::InThePast);
    assert_eq!(decide(false, None, i64::MIN), Decision::InThePast);
}

#[test]
fn classify_marked_event_is_skipped() {
    let existing = vec![Some("### 3 ###".to_string())];
    assert_eq!(classify(&event(3, "2030-01-01 00:00:00"), &existing, 0), Decision::AlreadyMirrored);
    assert_eq!(classify(&event(4, "2030-01-01 00:00:00"), &existing, 0), Decision::Create);
}

#[test]
fn classify_unparsable_start_counts_as_past() {
    let existing = Vec::new();
    assert_eq!(classify(&event(1, "tomorrow"), &existing, 0), Decision::InThePast);
    assert_eq!(classify(&event(1, "2030-01-01T00:00:00"), &existing, 0), Decision::InThePast);
    assert_eq!(classify(&event(1, ""), &existing, i64::MIN + 1), Decision::InThePast);
}

#[test]
fn classify_compares_with_the_present() {
    let e = event(1, "2030-01-01 00:00:00");
    assert_eq!(classify(&e, &Vec::new(), START_2030 - 1), Decision::Create);
    assert_eq!(classify(&e, &Vec::new(), START_2030), Decision::InThePast);
}

#[test]
fn carriage_returns_are_removed() {
    assert_eq!(strip_carriage_returns("a\r\nb\r"), "a\nb");
    assert_eq!(strip_carriage_returns(""), "");
    assert_eq!(strip_carriage_returns("é\rü"), "éü");
}

#[test]
fn markdown_images_are_removed() {
    assert_eq!(clean_body("Hello ![alt](http://x/y.png) world"), "Hello  world");
    assert_eq!(clean_body("a ![](u) b !(v) c"), "a  b  c");
}

#[test]
fn text_without_images_only_loses_carriage_returns() {
    assert_eq!(clean_body("line one\r\nline [two](link) !\r\n"), "line one\nline [two](link) !\n");
}

#[test]
fn utf8_widths() {
    assert_eq!(char_width('a'), 1);
    assert_eq!(char_width('é'), 2);
    assert_eq!(char_width('€'), 3);
    assert_eq!(char_width('😀'), 4);
}

#[test]
fn budget_after_paying_a_text() {
    assert_eq!(bytes_left(10, &chars_of("aé")), 7);
    assert_eq!(bytes_left(3, &chars_of("aé")), 0);
    assert_eq!(bytes_left(2, &chars_of("aé")), 0);
    assert_eq!(bytes_left(5, &Vec::new()), 5);
}

#[test]
fn fitting_prefix_stops_before_a_split_character() {
    let s = chars_of("aé€");
    assert_eq!(fitting_prefix_len(&s, 0), 0);
    assert_eq!(fitting_prefix_len(&s, 2), 1);
    assert_eq!(fitting_prefix_len(&s, 3), 2);
    assert_eq!(fitting_prefix_len(&s, 5), 2);
    assert_eq!(fitting_prefix_len(&s, 6), 3);
    assert_eq!(fitting_prefix_len(&s, 100), 3);
}

#[test]
fn short_description_is_kept_whole() {
    assert_eq!(assemble_description("P", "body", "S"), "PbodyS");
}

#[test]
fn long_ascii_description_is_cut_to_the_limit() {
    let body = "x".repeat(2000);
    let r = assemble_description("head\n", &body, "\ntail");
    assert_eq!(r.len(), 1000);
    assert!(r.starts_with("head\nxxx"));
    assert!(r.ends_with("x\ntail"));
}

#[test]
fn long_multibyte_description_is_cut_on_a_boundary() {
    // 10 + 2 * 500 bytes; the budget for the body is 1000 - 3 - 2 = 995.
    let body = format!("{}{}", "a".repeat(10), "é".repeat(500));
    let r = assemble_description("abc", &body, "de");
    assert_eq!(r.len(), 999);
    assert!(r.len() <= 1000);
    assert!(r.ends_with("éde"));
    assert_eq!(r.chars().filter(|c| *c == 'é').count(), 492);
}

#[test]
fn oversized_head_and_tail_leave_no_body() {
    let head = "h".repeat(990);
    let r = assemble_description(&head, "body", "tail-tail-");
    assert_eq!(r, format!("{head}tail-tail-"));
    let head = "h".repeat(995);
    let r = assemble_description(&head, "body", "tail-tail-");
    assert_eq!(r, format!("{head}tail-tail-"));
}

#[test]
fn prefix_and_suffix_text() {
    assert_eq!(make_prefix("/events/9"), "[See on TruckersMP](https://truckersmp.com/events/9)\n\n");
    assert_eq!(make_suffix(9), "\n\n### 9 ###");
}

#[test]
fn description_of_an_event() {
    let d = event_description(&event(12, "2030-01-01 00:00:00"));
    assert_eq!(
        d,
        "[See on TruckersMP](https://truckersmp.com/events/12)\n\nDrive safe.\nBring coffee.\n\n### 12 ###"
    );
}

#[test]
fn format_event_sets_an_hour_long_slot() {
    let e = event(8, "2030-01-01 00:00:00");
    let p = format_event(&e, START_2030);
    assert_eq!(p.id, 8);
    assert_eq!(p.name, "Convoy 8");
    assert_eq!(p.start, START_2030);
    assert_eq!(p.end, START_2030 + 3600);
    assert_eq!(p.location, "Berlin");
    assert_eq!(p.banner.as_deref(), Some("https://example.org/banner.png"));
    assert!(p.description.ends_with("### 8 ###"));
}

#[test]
fn future_event_without_marker_is_planned_once() {
    let created = vec![event(21, "2030-01-01 00:00:00")];
    let existing = vec![Some("### 20 ###".to_string()), None];
    let plans = plan_new_events(&created, &existing, START_2030 - 3600);
    assert_eq!(plans.len(), 1);
    assert_eq!(plans[0].start, START_2030);
    assert_eq!(plans[0].end, START_2030 + 3600);
    assert_eq!(plans[0].location, "Berlin");
    assert!(plans[0].description.ends_with("### 21 ###"));
}

#[test]
fn event_an_hour_ahead_is_planned_now() {
    let start = chrono::Utc::now() + chrono::Duration::hours(1);
    let start_at = start.format("%Y-%m-%d %H:%M:%S").to_string();
    let mut e = event(31, &start_at);
    e.banner = None;
    let (now, plans) = plan_new_events_now(&vec![e], &Vec::new());
    assert_eq!(plans.len(), 1);
    assert!(now < plans[0].start);
    assert!(plans[0].start <= now + 3600);
    assert_eq!(plans[0].id, 31);
    assert!(plans[0].description.ends_with("### 31 ###"));
    assert_eq!(plans[0].location, "Berlin");
    assert_eq!(plans[0].end - plans[0].start, 3600);
    assert_eq!(plans[0].banner, None);
}

#[test]
fn past_event_is_not_planned() {
    let (_, plans) = plan_new_events_now(&vec![event(41, "2001-05-06 07:08:09")], &Vec::new());
    assert!(plans.is_empty());
    let plans = plan_new_events(&vec![event(41, "2001-05-06 07:08:09")], &Vec::new(), START_2030);
    assert!(plans.is_empty());
}

#[test]
fn duplicate_marked_event_is_not_planned() {
    let created = Response::new(false, vec![event(51, "2030-01-01 00:00:00")]);
    let attending = Response::new(false, vec![event(51, "2030-01-01 00:00:00")]);
    let candidates = merge_responses(created, attending).unwrap();
    assert_eq!(candidates.len(), 2);
    let existing = vec![Some("see\n\n### 51 ###".to_string())];
    assert!(plan_new_events(&candidates, &existing, 0).is_empty());
}

#[test]
fn duplicate_unmarked_event_is_planned_twice() {
    let candidates = vec![event(52, "2030-01-01 00:00:00"), event(52, "2030-01-01 00:00:00")];
    assert_eq!(plan_new_events(&candidates, &Vec::new(), 0).len(), 2);
}

#[test]
fn plans_keep_candidate_order() {
    let candidates = vec![
        event(1, "2030-01-01 00:00:00"),
        event(2, "2000-01-01 00:00:00"),
        event(3, "2030-01-01 00:00:01"),
        event(4, "not a date"),
        event(5, "2030-01-01 00:00:02"),
    ];
    let existing = vec![Some("### 3 ###".to_string())];
    let plans = plan_new_events(&candidates, &existing, START_2030 - 10);
    let names: Vec<&str> = plans.iter().map(|p| p.name.as_str()).collect();
    assert_eq!(names, vec!["Convoy 1", "Convoy 5"]);
    assert_eq!(plans[1].start, START_2030 + 2);
}

#[test]
fn merge_keeps_created_then_attending() {
    let created = Response::new(false, vec![event(1, "a"), event(2, "b")]);
    let attending = Response::new(false, vec![event(3, "c"), event(4, "d")]);
    let merged = merge_responses(created, attending).unwrap();
    let ids: Vec<u64> = merged.iter().map(|e| *e.id()).collect();
    assert_eq!(ids, vec![1, 2, 3, 4]);
}

#[test]
fn merge_rejects_an_error_flag() {
    let ok = || Response::new(false, vec![event(1, "a")]);
    let bad = || Response::new(true, Vec::new());
    assert_eq!(merge_responses(bad(), ok()), Err(SyncError::Upstream));
    assert_eq!(merge_responses(ok(), bad()), Err(SyncError::Upstream));
    assert_eq!(merge_responses(bad(), bad()), Err(SyncError::Upstream));
    assert_eq!(merge_responses(Response::new(false, Vec::new()), Response::new(false, Vec::new())), Ok(Vec::new()));
}

#[test]
fn exactly_one_guild_is_required() {
    assert_eq!(single_guild(&vec![77]), Ok(77));
    assert_eq!(single_guild(&Vec::new()), Err(SyncError::GuildCount));
    assert_eq!(single_guild(&vec![1, 2]), Err(SyncError::GuildCount));
}

#[test]
fn listing_addresses() {
    assert_eq!(events_url("123"), "https://api.truckersmp.com/v2/vtc/123/events");
    assert_eq!(attending_events_url("123"), "https://api.truckersmp.com/v2/vtc/123/events/attending");
}

#[test]
fn getters_return_the_fields() {
    let e = event(9, "2030-01-01 00:00:00");
    assert_eq!(*e.id(), 9);
    assert_eq!(e.name(), "Convoy 9");
    assert_eq!(e.departure().city(), "Berlin");
    assert_eq!(e.start_at(), "2030-01-01 00:00:00");
    assert_eq!(e.banner().as_deref(), Some("https://example.org/banner.png"));
    assert_eq!(e.url(), "/events/9");
    assert!(e.description().starts_with("Drive safe."));
    let r = Response::new(true, vec![e]);
    assert!(*r.error());
    assert_eq!(r.response().len(), 1);
}

use climax::bang_core::ids::CursorAnchor;
use climax::bang_core::render::{
    plain_snapshot, CalendarDay, CalendarView, CalendarWeek, ListRow, ListView, Role, Span,
    TextInputView, View,
};
use climax::bang_core::value::Date;

fn date(day: u8) -> Date {
    Date::new(2026, 7, day).expect("test date is valid")
}

#[test]
fn list_snapshot_exposes_selection_and_check_state() {
    let view = View::List(ListView {
        id: None,
        header: vec![Span::new("Pick one", Role::Prompt)],
        rows: vec![
            ListRow {
                id: None,
                spans: vec![Span::normal("Alpha")],
                selected: true,
                checked: Some(true),
            },
            ListRow {
                id: None,
                spans: vec![Span::normal("Beta")],
                selected: false,
                checked: Some(false),
            },
        ],
        selected: Some(0),
        requested_start: 0,
        total: 2,
        max_visible: None,
        help: vec![Span::new("enter to select", Role::Dim)],
    });

    assert_eq!(
        plain_snapshot(&view),
        "Pick one\n> [x] Alpha\n  [ ] Beta\nenter to select"
    );
}

#[test]
fn text_input_snapshot_uses_value_and_reports_error() {
    let view = View::TextInput(TextInputView {
        id: None,
        prompt: vec![Span::new("Name: ", Role::Prompt)],
        value: "Ada".to_owned(),
        placeholder: Some("anonymous".to_owned()),
        cursor: 3,
        cursor_anchor: CursorAnchor::borrowed("name"),
        error: Some("already taken".to_owned()),
    });

    assert_eq!(plain_snapshot(&view), "Name: Ada\nalready taken");
}

#[test]
fn calendar_snapshot_exposes_selected_today_and_outside_month_days() {
    let view = View::Calendar(CalendarView {
        id: None,
        year: 2026,
        month: 7,
        month_label: "July 2026".to_owned(),
        weekdays: vec!["Mo".to_owned(), "Tu".to_owned(), "We".to_owned()],
        weeks: vec![CalendarWeek {
            days: vec![
                CalendarDay {
                    date: date(1),
                    label: "1".to_owned(),
                    in_month: true,
                    selected: true,
                    today: false,
                },
                CalendarDay {
                    date: date(2),
                    label: "2".to_owned(),
                    in_month: true,
                    selected: false,
                    today: true,
                },
                CalendarDay {
                    date: date(3),
                    label: "3".to_owned(),
                    in_month: false,
                    selected: false,
                    today: false,
                },
            ],
        }],
        selected: date(1),
        help: vec![],
    });

    assert_eq!(plain_snapshot(&view), "July 2026\nMo Tu We\n> 1 * 2 . 3");
}

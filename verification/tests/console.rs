use geng::console::{Console, MAX_RECORDS};

#[test]
fn console_keeps_last_ten() {
    let mut c = Console::new();
    c.before_draw((0..4).map(|i| format!("m{i}")).collect());
    assert_eq!(c.records().len(), 4);
    c.before_draw((4..13).map(|i| format!("m{i}")).collect());
    assert_eq!(c.records().len(), MAX_RECORDS);
    assert_eq!(c.records().front().unwrap(), "m3");
    assert_eq!(c.records().back().unwrap(), "m12");
    c.before_draw(vec![]);
    assert_eq!(c.records().len(), 10);
}

use pane_groups::model::{BareKey, KeyWithModifier, PaneId, PaneInfo};
use pane_groups::model::pane_id_from;
use pane_groups::interpret::{is_key, key_to_group_num};
use pane_groups::parse::parse_u8;

fn key(b: BareKey) -> KeyWithModifier {
    KeyWithModifier {
        bare_key: b,
        has_modifiers: false,
    }
}

#[test]
fn parse_u8_accepts_plain_decimals() {
    assert_eq!(parse_u8("0"), Some(0));
    assert_eq!(parse_u8("7"), Some(7));
    assert_eq!(parse_u8("42"), Some(42));
    assert_eq!(parse_u8("255"), Some(255));
    assert_eq!(parse_u8("007"), Some(7));
}

#[test]
fn parse_u8_accepts_leading_plus() {
    assert_eq!(parse_u8("+5"), Some(5));
    assert_eq!(parse_u8("+255"), Some(255));
}

#[test]
fn parse_u8_rejects_everything_else() {
    assert_eq!(parse_u8(""), None);
    assert_eq!(parse_u8("+"), None);
    assert_eq!(parse_u8("++1"), None);
    assert_eq!(parse_u8("-1"), None);
    assert_eq!(parse_u8("256"), None);
    assert_eq!(parse_u8("12a"), None);
    assert_eq!(parse_u8("a12"), None);
    assert_eq!(parse_u8(" 1"), None);
    assert_eq!(parse_u8("999999999999999999999"), None);
}

#[test]
fn digit_keys_name_groups_one_to_nine() {
    for (c, expected) in [('0', None), ('1', Some(1)), ('5', Some(5)), ('9', Some(9)), ('x', None)]
    {
        assert_eq!(key_to_group_num(&key(BareKey::Char(c))), expected);
    }
    assert_eq!(key_to_group_num(&key(BareKey::Enter)), None);
    // Modifiers do not matter for the digit reading.
    assert_eq!(
        key_to_group_num(&KeyWithModifier {
            bare_key: BareKey::Char('3'),
            has_modifiers: true,
        }),
        Some(3)
    );
}

#[test]
fn is_key_requires_no_modifiers() {
    assert!(is_key(&key(BareKey::Tab), BareKey::Tab));
    assert!(!is_key(&key(BareKey::Tab), BareKey::Enter));
    assert!(!is_key(
        &KeyWithModifier {
            bare_key: BareKey::Tab,
            has_modifiers: true,
        },
        BareKey::Tab
    ));
}

#[test]
fn pane_id_distinguishes_terminals_and_plugins() {
    let t = PaneInfo {
        id: 4,
        is_plugin: false,
        is_focused: false,
    };
    let p = PaneInfo {
        id: 4,
        is_plugin: true,
        is_focused: false,
    };
    assert_eq!(pane_id_from(&t), PaneId::Terminal(4));
    assert_eq!(pane_id_from(&p), PaneId::Plugin(4));
    assert_ne!(pane_id_from(&t), pane_id_from(&p));
}

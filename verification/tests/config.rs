use minis::config::builtins::{register_builtins, ONE_F64_BITS};
use minis::config::registry::{ConfigField, ConfigRegistry, ConfigRisk, ConfigValue};

fn field(path: &str, v: i64) -> ConfigField {
    ConfigField {
        path: path.into(),
        display_name: "D".into(),
        description: "desc".into(),
        value: ConfigValue::Int(v),
        default: ConfigValue::Int(0),
        risk: ConfigRisk::Sensitive,
        revertable: false,
    }
}

#[test]
fn test_builtins_are_font_scales() {
    let mut reg = ConfigRegistry::new();
    register_builtins(&mut reg);
    assert_eq!(reg.list().len(), 3);
    for path in ["chat.inputFontSize", "chat.messageFontSize", "appearance.appFontSize"] {
        let f = reg.get(path).unwrap();
        assert!(matches!(f.value, ConfigValue::Float(b) if f64::from_bits(b) == 1.0));
        assert!(matches!(f.default, ConfigValue::Float(b) if b == ONE_F64_BITS));
        assert_eq!(f.risk, ConfigRisk::Normal);
        assert!(f.revertable);
    }
    assert_eq!(reg.get("chat.inputFontSize").unwrap().display_name, "Input font size");
}

#[test]
fn test_register_get_set() {
    let mut reg = ConfigRegistry::default();
    reg.register(field("a.b", 1));
    reg.register(field("c.d", 2));
    reg.register(field("a.b", 3));
    assert_eq!(reg.list().len(), 2);
    assert!(matches!(reg.get("a.b").unwrap().value, ConfigValue::Int(3)));
    reg.set("c.d", ConfigValue::Str("x".into())).unwrap();
    let f = reg.get("c.d").unwrap();
    assert!(matches!(&f.value, ConfigValue::Str(s) if s == "x"));
    assert!(matches!(f.default, ConfigValue::Int(0)));
    let err = reg.set("nope", ConfigValue::Null).unwrap_err();
    assert_eq!(err.message, "Unknown config path: nope");
    assert!(reg.get("nope").is_none());
}

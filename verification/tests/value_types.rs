use timing_tower::value_store::types;
use timing_tower::value_store::{AssetId, AssetReference, AssetType, ValueStore};
use timing_tower::value_types::{Boolean, Text, ValueType, ValueTypeOf};

const ALL_VALUE_TYPES: [ValueType; 5] = [
    ValueType::Number,
    ValueType::Text,
    ValueType::Tint,
    ValueType::Boolean,
    ValueType::Texture,
];

const ALL_ASSET_TYPES: [AssetType; 5] = [
    AssetType::Number,
    AssetType::Text,
    AssetType::Color,
    AssetType::Boolean,
    AssetType::Image,
];

#[test]
fn value_type_casts_to_itself() {
    for t in ALL_VALUE_TYPES {
        assert!(t.can_cast_to(&t));
    }
}

#[test]
fn value_type_numbers_and_booleans_cast_to_text() {
    assert!(ValueType::Number.can_cast_to(&ValueType::Text));
    assert!(ValueType::Boolean.can_cast_to(&ValueType::Text));
    assert!(!ValueType::Tint.can_cast_to(&ValueType::Text));
    assert!(!ValueType::Texture.can_cast_to(&ValueType::Text));
}

#[test]
fn value_type_other_casts_are_refused() {
    assert!(!ValueType::Text.can_cast_to(&ValueType::Number));
    assert!(!ValueType::Text.can_cast_to(&ValueType::Boolean));
    assert!(!ValueType::Number.can_cast_to(&ValueType::Boolean));
    assert!(!ValueType::Boolean.can_cast_to(&ValueType::Number));
    assert!(!ValueType::Tint.can_cast_to(&ValueType::Texture));
    let mut allowed = 0;
    for a in ALL_VALUE_TYPES {
        for b in ALL_VALUE_TYPES {
            if a.can_cast_to(&b) {
                allowed += 1;
            }
        }
    }
    assert_eq!(allowed, 7);
}

#[test]
fn value_type_names() {
    assert_eq!(ValueType::Number.name(), "Number");
    assert_eq!(ValueType::Text.name(), "Text");
    assert_eq!(ValueType::Tint.name(), "Color");
    assert_eq!(ValueType::Boolean.name(), "Boolean");
    assert_eq!(ValueType::Texture.name(), "Image");
}

#[test]
fn value_type_default_is_number() {
    assert_eq!(ValueType::default(), ValueType::Number);
}

#[test]
fn value_type_of_text_and_boolean() {
    assert_eq!(<ValueType as ValueTypeOf<Text>>::get(), ValueType::Text);
    assert_eq!(<ValueType as ValueTypeOf<Boolean>>::get(), ValueType::Boolean);
}

#[test]
fn value_wrappers_hold_their_values() {
    let t = Text(String::from("P1"));
    let b = Boolean(true);
    assert_eq!(t.0, "P1");
    assert!(b.0);
    assert_eq!(Text::default().0, "");
    assert!(!Boolean::default().0);
    let st = types::Text(String::from("lap"));
    let sb = types::Boolean(false);
    assert_eq!(st.0, "lap");
    assert!(!sb.0);
}

#[test]
fn asset_type_casts() {
    for t in ALL_ASSET_TYPES {
        assert!(t.can_cast_to(&t));
    }
    assert!(AssetType::Number.can_cast_to(&AssetType::Text));
    assert!(!AssetType::Boolean.can_cast_to(&AssetType::Text));
    assert!(!AssetType::Text.can_cast_to(&AssetType::Number));
    assert!(!AssetType::Color.can_cast_to(&AssetType::Image));
    let mut allowed = 0;
    for a in ALL_ASSET_TYPES {
        for b in ALL_ASSET_TYPES {
            if a.can_cast_to(&b) {
                allowed += 1;
            }
        }
    }
    assert_eq!(allowed, 6);
}

#[test]
fn asset_type_names() {
    assert_eq!(AssetType::Number.name(), "Number");
    assert_eq!(AssetType::Text.name(), "Text");
    assert_eq!(AssetType::Color.name(), "Color");
    assert_eq!(AssetType::Boolean.name(), "Boolean");
    assert_eq!(AssetType::Image.name(), "Image");
}

#[test]
fn asset_type_default_is_number() {
    assert_eq!(AssetType::default(), AssetType::Number);
    let r = AssetReference::default();
    assert_eq!(r.asset_type, AssetType::Number);
    assert_eq!(r.key, 0);
}

#[test]
fn new_asset_id_is_a_random_v4_uuid_named_variable() {
    let a = AssetId::default();
    let b = AssetId::default();
    assert_eq!(a.name, "Variable");
    assert_eq!(a.asset_type, AssetType::Number);
    assert_eq!((a.id >> 76) & 0xF, 4);
    assert_eq!((a.id >> 62) & 0x3, 2);
    assert_ne!(a.id, 0);
    assert_ne!(a.id, b.id);
}

#[test]
fn asset_reference_names_the_asset() {
    let a = AssetId { id: 77, name: String::from("Gap"), asset_type: AssetType::Text };
    let r = a.get_ref();
    assert_eq!(r.key, 77);
    assert_eq!(r.asset_type, AssetType::Text);
}

#[test]
fn value_store_reload_lets_later_definitions_win() {
    let mut store: ValueStore<&str> = ValueStore::default();
    assert!(store.get(1).is_none());
    store.reload_repo(
        vec![(1, "var one"), (2, "var two"), (1, "var one again")],
        vec![(2, "asset two"), (3, "asset three")],
        vec![(4, "game source")],
    );
    assert_eq!(store.get(1), Some(&"var one again"));
    assert_eq!(store.get(2), Some(&"asset two"));
    assert_eq!(store.get(3), Some(&"asset three"));
    assert_eq!(store.get(4), Some(&"game source"));
    assert!(store.get(5).is_none());
}

#[test]
fn value_store_reload_forgets_old_assets() {
    let mut store: ValueStore<u8> = ValueStore::default();
    store.reload_repo(vec![(1, 10)], vec![], vec![]);
    assert_eq!(store.get(1), Some(&10));
    store.reload_repo(vec![], vec![(2, 20)], vec![(2, 21)]);
    assert!(store.get(1).is_none());
    assert_eq!(store.get(2), Some(&21));
}

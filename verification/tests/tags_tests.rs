use order_analytics::models::UserTags;
use order_analytics::tags::{tags_or_empty, TagTable};

#[test]
fn unknown_address_yields_empty_set() {
    let table = TagTable::new();
    let row = table.get_tags(&String::from("never-seen"));
    assert_eq!(row.address, "never-seen");
    assert!(row.tags.is_empty());
}

#[test]
fn add_tag_creates_row_for_new_address() {
    let mut table = TagTable::new();
    let row = table.add_tag(&String::from("alice"), &String::from("vip"));
    assert_eq!(row.address, "alice");
    assert_eq!(row.tags, vec![String::from("vip")]);
    let read = table.get_tags(&String::from("alice"));
    assert_eq!(read.tags, vec![String::from("vip")]);
}

#[test]
fn add_tag_twice_is_idempotent() {
    let mut table = TagTable::new();
    table.add_tag(&String::from("alice"), &String::from("vip"));
    let second = table.add_tag(&String::from("alice"), &String::from("vip"));
    assert_eq!(second.tags, vec![String::from("vip")]);
    let read = table.get_tags(&String::from("alice"));
    assert_eq!(read.tags.len(), 1);
    assert_eq!(read.tags.iter().filter(|t| *t == "vip").count(), 1);
}

#[test]
fn distinct_tags_append_in_order() {
    let mut table = TagTable::new();
    table.add_tag(&String::from("alice"), &String::from("vip"));
    let row = table.add_tag(&String::from("alice"), &String::from("market-maker"));
    assert_eq!(row.tags, vec![String::from("vip"), String::from("market-maker")]);
}

#[test]
fn addresses_keep_independent_tag_sets() {
    let mut table = TagTable::new();
    table.add_tag(&String::from("alice"), &String::from("vip"));
    table.add_tag(&String::from("bob"), &String::from("bot"));
    table.add_tag(&String::from("alice"), &String::from("whale"));
    assert_eq!(
        table.get_tags(&String::from("alice")).tags,
        vec![String::from("vip"), String::from("whale")]
    );
    assert_eq!(table.get_tags(&String::from("bob")).tags, vec![String::from("bot")]);
    assert!(table.get_tags(&String::from("carol")).tags.is_empty());
}

#[test]
fn row_or_absence_maps_to_tag_set() {
    let row = UserTags { address: String::from("alice"), tags: vec![String::from("vip")] };
    let present = tags_or_empty(&String::from("alice"), Some(row));
    assert_eq!(present.address, "alice");
    assert_eq!(present.tags, vec![String::from("vip")]);
    let absent = tags_or_empty(&String::from("ghost"), None);
    assert_eq!(absent.address, "ghost");
    assert!(absent.tags.is_empty());
}

use eatery_catalog::catalog::Catalog;
use eatery_catalog::decode::decode_record;

fn blob(id: usize, name: &str) -> String {
    format!(
        "{{\"id\": {}, \"name\": \"{}\", \"category\": [\"food\"], \"open_time\": \"08:00\", \"close_time\": \"22:00\", \"rating\": 4.5, \"photo\": \"photo.jpg\", \"address\": \"1 Main St\", \"phone_number\": \"555-0100\", \"reviews\": [\"great\", \"fine\"]}}",
        id, name
    )
}

fn sample_names() -> Vec<&'static str> {
    vec![
        "City College Diner",
        "Old College Grill",
        "Cafe Uno",
        "Taco Stand",
        "Burger Barn",
        "Pizza Den",
        "Sushi Spot",
        "Thai Garden",
        "Bagel House",
        "Waffle Hut",
    ]
}

fn sample_blobs() -> Vec<String> {
    // Handed over in no particular order: the loader must sort by id.
    let names = sample_names();
    let mut blobs = Vec::new();
    for id in [7usize, 2, 9, 0, 5, 3, 8, 1, 6, 4] {
        blobs.push(blob(id, names[id]));
    }
    blobs
}

fn sample_catalog() -> Catalog {
    Catalog::load_catalog(&sample_blobs())
}

#[test]
fn test_eateries() {
    let catalog = sample_catalog();
    let l = catalog.list();
    assert_eq!(l.len(), 10);
}

#[test]
fn test_eatery() {
    let catalog = sample_catalog();
    for id in 0..10 {
        let e = catalog.get_by_id(id).expect("id should be present");
        assert_eq!(e.id, id);
    }
}

#[test]
fn test_together() {
    let catalog = sample_catalog();
    let l = catalog.list();
    assert_eq!(l.len(), 10);

    for be in l {
        let e = catalog.get_by_id(be.id).expect("listed id should be present");
        assert_eq!(e.id, be.id);
        assert_eq!(e.phone_number, be.phone_number);
        assert_eq!(e.address, be.address);
        assert_eq!(e.photo, be.photo);
        assert_eq!(e.open_time, be.open_time);
        assert_eq!(e.close_time, be.close_time);
        assert_eq!(e.rating, be.rating);
        assert_eq!(e.category, be.category);
        assert_eq!(e.name, be.name);
    }
}

#[test]
fn test_search() {
    let catalog = sample_catalog();

    let l = catalog.search_by_name("c");
    assert_eq!(l.len(), 4);

    let l = catalog.search_by_name("xyz");
    assert_eq!(l.len(), 0);

    let l = catalog.search_by_name("college");
    assert_eq!(l.len(), 2);
}

#[test]
fn test_list_sorted_ascending() {
    let catalog = sample_catalog();
    let l = catalog.list();
    for w in l.windows(2) {
        assert!(w[0].id <= w[1].id);
    }
    let ids: Vec<usize> = l.iter().map(|b| b.id).collect();
    assert_eq!(ids, (0..10).collect::<Vec<usize>>());
}

#[test]
fn test_list_projects_every_field() {
    let catalog = Catalog::load_catalog(&vec![blob(3, "Cafe Uno")]);
    let l = catalog.list();
    assert_eq!(l.len(), 1);
    let b = &l[0];
    assert_eq!(b.id, 3);
    assert_eq!(b.name, "Cafe Uno");
    assert_eq!(b.category, vec!["food".to_string()]);
    assert_eq!(b.open_time, "08:00");
    assert_eq!(b.close_time, "22:00");
    assert_eq!(b.rating, "4.5");
    assert_eq!(b.photo, "photo.jpg");
    assert_eq!(b.address, "1 Main St");
    assert_eq!(b.phone_number, "555-0100");
}

#[test]
fn test_get_by_id_exposes_reviews() {
    let catalog = sample_catalog();
    let e = catalog.get_by_id(4).expect("id should be present");
    assert_eq!(e.reviews, vec!["great".to_string(), "fine".to_string()]);
}

#[test]
fn test_get_absent_id_is_not_found() {
    let catalog = sample_catalog();
    assert!(catalog.get_by_id(77).is_none());
}

#[test]
fn test_empty_source() {
    let catalog = Catalog::load_catalog(&Vec::new());
    assert_eq!(catalog.len(), 0);
    assert!(catalog.list().is_empty());
    assert!(catalog.get_by_id(0).is_none());
}

#[test]
fn test_search_empty_query_returns_everything() {
    let catalog = sample_catalog();
    let l = catalog.search_by_name("");
    assert_eq!(l.len(), 10);
}

#[test]
fn test_search_case_insensitive() {
    let catalog = sample_catalog();
    let upper = catalog.search_by_name("CAFE");
    let lower = catalog.search_by_name("cafe");
    assert_eq!(upper.len(), 1);
    assert_eq!(upper.len(), lower.len());
    for (a, b) in upper.iter().zip(lower.iter()) {
        assert_eq!(a.id, b.id);
        assert_eq!(a.name, b.name);
    }
    assert_eq!(upper[0].name, "Cafe Uno");
}

#[test]
fn test_malformed_blobs_are_dropped() {
    let mut blobs = vec![blob(0, "Burger Barn"), blob(1, "Pizza Den"), blob(2, "Sushi Spot")];
    // Missing the rating field entirely.
    blobs.push(
        "{\"id\": 3, \"name\": \"No Rating\", \"category\": [], \"open_time\": \"08:00\", \"close_time\": \"22:00\", \"photo\": \"p\", \"address\": \"a\", \"phone_number\": \"n\", \"reviews\": []}"
        .to_string(),
    );
    // Rating encoded as text instead of a number.
    blobs.push(blob(4, "Text Rating").replace("4.5", "\"4.5\""));
    // Not JSON at all.
    blobs.push("not json".to_string());
    let catalog = Catalog::load_catalog(&blobs);
    assert_eq!(catalog.len(), 3);
    assert!(catalog.get_by_id(3).is_none());
    assert!(catalog.get_by_id(4).is_none());
    assert!(catalog.get_by_id(2).is_some());
}

#[test]
fn test_decode_rejects_each_missing_field() {
    let good = blob(1, "Cafe Uno");
    assert!(decode_record(&good).is_some());
    for field in [
        "\"id\": 1, ",
        "\"name\": \"Cafe Uno\", ",
        "\"category\": [\"food\"], ",
        "\"open_time\": \"08:00\", ",
        "\"close_time\": \"22:00\", ",
        "\"rating\": 4.5, ",
        "\"photo\": \"photo.jpg\", ",
        "\"address\": \"1 Main St\", ",
        "\"phone_number\": \"555-0100\", ",
    ] {
        let broken = good.replace(field, "");
        assert!(decode_record(&broken).is_none(), "should reject without {field}");
    }
    let no_reviews = good.replace(", \"reviews\": [\"great\", \"fine\"]", "");
    assert!(decode_record(&no_reviews).is_none());
}

#[test]
fn test_decode_rejects_type_mismatches() {
    let good = blob(1, "Cafe Uno");
    // id as text.
    assert!(decode_record(&good.replace("\"id\": 1", "\"id\": \"1\"")).is_none());
    // id as a float.
    assert!(decode_record(&good.replace("\"id\": 1", "\"id\": 1.5")).is_none());
    // negative id.
    assert!(decode_record(&good.replace("\"id\": 1", "\"id\": -1")).is_none());
    // name as a number.
    assert!(decode_record(&good.replace("\"name\": \"Cafe Uno\"", "\"name\": 7")).is_none());
    // category holding a non-string element.
    assert!(decode_record(&good.replace("[\"food\"]", "[\"food\", 3]")).is_none());
    // category as a single string.
    assert!(decode_record(&good.replace("[\"food\"]", "\"food\"")).is_none());
}

#[test]
fn test_decode_ignores_extra_fields() {
    let extra = blob(6, "Bagel House").replace("{\"id\"", "{\"owner\": \"pat\", \"id\"");
    let e = decode_record(&extra).expect("extra fields are ignored");
    assert_eq!(e.id, 6);
    assert_eq!(e.name, "Bagel House");
}

#[test]
fn test_decode_keeps_integer_rating_text() {
    let e = decode_record(&blob(2, "Pizza Den").replace("4.5", "4")).expect("integer rating");
    assert_eq!(e.rating, "4");
}

#[test]
fn test_duplicate_ids_are_kept() {
    let blobs = vec![blob(5, "Cafe Uno"), blob(5, "Taco Stand"), blob(1, "Burger Barn")];
    let catalog = Catalog::load_catalog(&blobs);
    assert_eq!(catalog.len(), 3);
    let e = catalog.get_by_id(5).expect("id should be present");
    assert_eq!(e.id, 5);
    assert!(e.name == "Cafe Uno" || e.name == "Taco Stand");
}

#[test]
fn test_load_order_independent() {
    let names = sample_names();
    let mut forward = Vec::new();
    for id in 0..10 {
        forward.push(blob(id, names[id]));
    }
    let mut backward = forward.clone();
    backward.reverse();
    let a = Catalog::load_catalog(&forward).list();
    let b = Catalog::load_catalog(&backward).list();
    assert_eq!(a.len(), b.len());
    for (x, y) in a.iter().zip(b.iter()) {
        assert_eq!(x.id, y.id);
        assert_eq!(x.name, y.name);
        assert_eq!(x.rating, y.rating);
    }
}

#[test]
fn test_search_matches_inside_name() {
    let catalog = sample_catalog();
    let l = catalog.search_by_name("arde");
    assert_eq!(l.len(), 1);
    assert_eq!(l[0].name, "Thai Garden");
}

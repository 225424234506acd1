use video_sentry::db::face::Face;
use video_sentry::db::person::Person;
use video_sentry::detection::photo::Photo;
use video_sentry::image_processor::{accepted_match, recognize_faces, MAX_DISTANCE};
use video_sentry::recognition::{find_matches, find_person, Data, DISTANCE_SCALE};

fn person(id: i64, uuid: &str, name: &str) -> Person {
    Person { id, uuid: uuid.to_string(), name: name.to_string() }
}

fn face(uuid: &str, person_uuid: &str, moderated: bool) -> Face {
    Face {
        id: 0,
        uuid: uuid.to_string(),
        photo_uuid: "p".to_string(),
        person_uuid: person_uuid.to_string(),
        measurements: "[]".to_string(),
        moderated,
    }
}

fn micro(d: f64) -> u64 {
    (d * DISTANCE_SCALE as f64).round() as u64
}

#[test]
fn order_matches_is_stable_and_ascending() {
    let mut m = vec![("a", 3u64), ("b", 1), ("c", 3), ("d", 0), ("e", 1)];
    Data::order_matches(&mut m);
    assert_eq!(m, vec![("d", 0), ("b", 1), ("e", 1), ("a", 3), ("c", 3)]);
}

#[test]
fn order_matches_on_empty_list() {
    let mut m: Vec<(u8, u64)> = Vec::new();
    Data::order_matches(&mut m);
    assert!(m.is_empty());
}

#[test]
fn candidate_lists_are_sorted() {
    let people = vec![person(1, "u1", "marion"), person(2, "u2", "armas")];
    let corpus = vec![
        (face("f1", "u1", true), 900_000),
        (face("f2", "u2", true), 100_000),
        (face("f3", "", true), 500_000),
        (face("f4", "u1", true), 100_000),
        (face("f5", "u2", false), 0),
    ];
    let data = find_matches(&corpus, &people);
    let distances: Vec<u64> = data.matches.iter().map(|m| m.1).collect();
    assert_eq!(distances, vec![100_000, 100_000, 500_000, 900_000]);
    for w in distances.windows(2) {
        assert!(w[0] <= w[1]);
    }
    assert_eq!(data.matches[0].0.as_ref().unwrap().name, "armas");
    assert_eq!(data.matches[1].0.as_ref().unwrap().name, "marion");
    assert!(data.matches[2].0.is_none());
    assert_eq!(data.matches[3].0.as_ref().unwrap().name, "marion");
}

#[test]
fn unknown_person_identifier_gives_no_person() {
    let people = vec![person(1, "u1", "marion")];
    assert!(find_person(&"u9".to_string(), &people).is_none());
    assert!(find_person(&"".to_string(), &people).is_none());
    assert_eq!(find_person(&"u1".to_string(), &people).unwrap(), people[0]);
}

#[test]
fn empty_corpus_gives_no_candidates_and_no_assignment() {
    let data = find_matches(&Vec::new(), &vec![person(1, "u1", "marion")]);
    assert!(data.matches.is_empty());
    assert!(accepted_match(&data).is_none());
    let unconfirmed = vec![(face("f1", "u1", false), 0)];
    let data = find_matches(&unconfirmed, &vec![person(1, "u1", "marion")]);
    assert!(data.matches.is_empty());
    assert!(accepted_match(&data).is_none());
}

fn one_face_photo(uuid: &str) -> Photo {
    let mut photo = Photo::new();
    let mut f = video_sentry::detection::face_image::FaceImage::new();
    f.uuid = uuid.to_string();
    photo.add_face(f);
    photo
}

#[test]
fn close_match_is_assigned_and_shown() {
    let people = vec![person(1, "u1", "marion")];
    let corpus = vec![(face("f1", "u1", true), micro(0.4)), (face("f2", "u1", true), micro(0.7))];
    let data = find_matches(&corpus, &people);
    let mut result = recognize_faces(one_face_photo("new"), vec![data]);
    let assigned = result.accept_matches();
    assert_eq!(assigned, vec![("new".to_string(), "u1".to_string())]);
    assert_eq!(result.display_data, vec![("marion".to_string(), 400_000)]);
}

#[test]
fn far_match_is_not_assigned() {
    let people = vec![person(1, "u1", "marion")];
    let corpus = vec![(face("f1", "u1", true), micro(0.9))];
    let data = find_matches(&corpus, &people);
    let mut result = recognize_faces(one_face_photo("new"), vec![data]);
    assert!(result.accept_matches().is_empty());
    assert!(result.display_data.is_empty());
}

#[test]
fn threshold_is_strict() {
    let people = vec![person(1, "u1", "marion")];
    let at = find_matches(&vec![(face("f1", "u1", true), MAX_DISTANCE)], &people);
    assert!(accepted_match(&at).is_none());
    let below = find_matches(&vec![(face("f1", "u1", true), MAX_DISTANCE - 1)], &people);
    assert_eq!(accepted_match(&below).unwrap().1, 599_999);
    assert_eq!(MAX_DISTANCE, micro(0.6));
}

#[test]
fn nearest_without_person_is_not_assigned() {
    let people = vec![person(1, "u1", "marion")];
    let corpus = vec![(face("f1", "", true), micro(0.1)), (face("f2", "u1", true), micro(0.2))];
    let data = find_matches(&corpus, &people);
    assert!(data.matches[0].0.is_none());
    assert!(accepted_match(&data).is_none());
}

#[test]
fn image_processor() {
    let people = vec![person(1, "u-marion", "marion"), person(2, "u-armas", "armas")];
    let corpus = vec![
        (face("m1", "u-marion", true), micro(0.35)),
        (face("a1", "u-armas", true), micro(0.8)),
    ];
    let data = find_matches(&corpus, &people);
    let mut result = recognize_faces(one_face_photo("marion-2"), vec![data]);
    result.accept_matches();
    assert_eq!(result.display_data[0].0, "marion");
    assert_eq!(result.is_face_found(), true);

    let far = vec![
        (face("m1", "u-marion", true), micro(0.75)),
        (face("a1", "u-armas", true), micro(0.8)),
    ];
    let data = find_matches(&far, &people);
    let mut result = recognize_faces(one_face_photo("deniro-1"), vec![data]);
    result.accept_matches();
    assert_eq!(result.display_data.len(), 0);
    assert_eq!(result.is_face_found(), true);

    let empty = video_sentry::detection::call(&Vec::new()).unwrap();
    let mut result = recognize_faces(empty, Vec::new());
    result.accept_matches();
    assert_eq!(result.is_face_found(), false);
}

#[test]
fn several_faces_are_handled_in_order() {
    let people = vec![person(1, "u1", "marion"), person(2, "u2", "armas")];
    let mut photo = Photo::new();
    for id in ["x", "y", "z"] {
        let mut f = video_sentry::detection::face_image::FaceImage::new();
        f.uuid = id.to_string();
        photo.add_face(f);
    }
    let near_marion = find_matches(&vec![(face("f1", "u1", true), 10)], &people);
    let none = find_matches(&Vec::new(), &people);
    let near_armas = find_matches(&vec![(face("f2", "u2", true), 20)], &people);
    let mut result = recognize_faces(photo, vec![near_marion, none, near_armas]);
    assert_eq!(result.face_matches[1].0, "y");
    let assigned = result.accept_matches();
    assert_eq!(
        assigned,
        vec![("x".to_string(), "u1".to_string()), ("z".to_string(), "u2".to_string())]
    );
    assert_eq!(
        result.display_data,
        vec![("marion".to_string(), 10), ("armas".to_string(), 20)]
    );
}

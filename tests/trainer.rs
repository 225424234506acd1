use video_sentry::db::person::Person;
use video_sentry::detection::face_image::FaceImage;
use video_sentry::detection::photo::Photo;
use video_sentry::trainer::cli::{interpret_answer, parse_index, person_options, AnswerError, Choice};
use video_sentry::trainer::directory_trainer::{DirectoryTrainer, TrainingError};

fn photo_with_faces(n: usize) -> Photo {
    let mut photo = Photo::new();
    for _ in 0..n {
        photo.add_face(FaceImage::new());
    }
    photo
}

#[test]
fn name_comes_from_parent_directory() {
    let name = DirectoryTrainer::parse_name(&"tests/fixtures/people/marion/2.jpg".to_string());
    assert_eq!(name.unwrap(), "marion");
    let name = DirectoryTrainer::parse_name(&"people/video_woman/1.jpg".to_string());
    assert_eq!(name.unwrap(), "video_woman");
    let r = DirectoryTrainer::parse_name(&"1.jpg".to_string());
    assert!(matches!(r, Err(TrainingError::NameNotFound(p)) if p == "1.jpg"));
}

#[test]
fn training_creates_one_person_per_label() {
    let mut trainer = DirectoryTrainer::new("people".to_string());
    let batch = vec![
        ("people/marion/1.jpg".to_string(), photo_with_faces(1)),
        ("people/armas/1.jpg".to_string(), photo_with_faces(1)),
    ];
    let mods = trainer.call(&batch).unwrap();
    assert_eq!(mods.len(), 2);
    assert_eq!(mods[0].new_person_name.as_deref(), Some("marion"));
    assert_eq!(mods[1].new_person_name.as_deref(), Some("armas"));
    assert_eq!(mods[0].face_uuid, batch[0].1.faces[0].uuid);
    assert_eq!(mods[1].face_uuid, batch[1].1.faces[0].uuid);
    assert_ne!(mods[0].person_uuid, mods[1].person_uuid);
    assert_eq!(trainer.people.len(), 2);
    assert_eq!(trainer.people[0], ("marion".to_string(), mods[0].person_uuid.clone()));
    assert_eq!(trainer.people[1], ("armas".to_string(), mods[1].person_uuid.clone()));
}

#[test]
fn directory_trainer() {
    let mut trainer = DirectoryTrainer::new("tests/fixtures/trainer".to_string());
    let batch = vec![
        ("tests/fixtures/trainer/armas/1.jpg".to_string(), photo_with_faces(1)),
        ("tests/fixtures/trainer/armas/2.jpg".to_string(), photo_with_faces(1)),
        ("tests/fixtures/trainer/marion/1.jpg".to_string(), photo_with_faces(1)),
    ];
    let mods = trainer.call(&batch).unwrap();
    let names: Vec<&str> = mods
        .iter()
        .map(|m| trainer.people.iter().find(|p| p.1 == m.person_uuid).unwrap().0.as_str())
        .collect();
    assert_eq!(names, vec!["armas", "armas", "marion"]);
    assert_eq!(mods[0].person_uuid, mods[1].person_uuid);
    assert!(mods[1].new_person_name.is_none());
    assert_eq!(trainer.people.len(), 2);
}

#[test]
fn known_label_reuses_person_across_batches() {
    let mut trainer = DirectoryTrainer::new("d".to_string());
    let first = trainer.call(&vec![("d/marion/1.jpg".to_string(), photo_with_faces(1))]).unwrap();
    let second = trainer.call(&vec![("d/marion/2.jpg".to_string(), photo_with_faces(2))]).unwrap();
    assert_eq!(first[0].person_uuid, second[0].person_uuid);
    assert!(second[0].new_person_name.is_none());
}

#[test]
fn refused_batch_changes_nothing() {
    let mut trainer = DirectoryTrainer::new("d".to_string());
    let batch = vec![
        ("d/marion/1.jpg".to_string(), photo_with_faces(1)),
        ("d/armas/1.jpg".to_string(), photo_with_faces(0)),
        ("nolabel.jpg".to_string(), photo_with_faces(1)),
    ];
    let r = trainer.call(&batch);
    assert!(matches!(r, Err(TrainingError::NoFaceDetected(p)) if p == "d/armas/1.jpg"));
    assert!(trainer.people.is_empty());
    let r = trainer.call(&vec![("nolabel.jpg".to_string(), photo_with_faces(1))]);
    assert!(matches!(r, Err(TrainingError::NameNotFound(_))));
}

#[test]
fn process_photo_checks_label_then_face() {
    let mut trainer = DirectoryTrainer::new("d".to_string());
    let r = trainer.process_photo(&"x.jpg".to_string(), &photo_with_faces(0));
    assert!(matches!(r, Err(TrainingError::NameNotFound(_))));
    let r = trainer.process_photo(&"d/ann/x.jpg".to_string(), &photo_with_faces(0));
    assert!(matches!(r, Err(TrainingError::NoFaceDetected(_))));
    let m = trainer.process_photo(&"d/ann/x.jpg".to_string(), &photo_with_faces(1)).unwrap();
    assert_eq!(m.new_person_name.as_deref(), Some("ann"));
    let (uuid, created) = trainer.get_person_uuid("ann".to_string());
    assert_eq!(uuid, m.person_uuid);
    assert!(!created);
}

fn person(id: i64, uuid: &str, name: &str) -> Person {
    Person { id, uuid: uuid.to_string(), name: name.to_string() }
}

#[test]
fn options_are_distinct_in_first_seen_order() {
    let a = person(1, "ua", "ann");
    let b = person(2, "ub", "bob");
    let matches = vec![
        (Some(b.clone()), 1),
        (None, 2),
        (Some(a.clone()), 3),
        (Some(b.clone()), 4),
    ];
    assert_eq!(person_options(&matches), vec![b, a]);
    assert!(person_options(&Vec::new()).is_empty());
}

#[test]
fn answers_are_read_like_usize() {
    assert_eq!(parse_index("1\n"), Some(1));
    assert_eq!(parse_index("  +12 \r\n"), Some(12));
    assert_eq!(parse_index("18446744073709551615"), Some(usize::MAX));
    assert_eq!(parse_index("18446744073709551616"), None);
    assert_eq!(parse_index("1 2"), None);
    assert_eq!(parse_index("-1"), None);
    assert_eq!(parse_index("+"), None);
    assert_eq!(parse_index(" \n"), None);
    assert_eq!(parse_index("bob"), None);
}

#[test]
fn answer_picks_option_or_names_new_person() {
    let options = vec![person(1, "ua", "ann"), person(2, "ub", "bob")];
    assert!(matches!(interpret_answer(&options, &"1\n".to_string()), Ok(Choice::Existing(u)) if u == "ub"));
    assert_eq!(
        interpret_answer(&options, &"2\n".to_string()).unwrap_err(),
        AnswerError::NoSuchOption(2)
    );
    assert!(
        matches!(interpret_answer(&options, &"Bob Marley\n".to_string()), Ok(Choice::NewPerson(n)) if n == "Bob Marley")
    );
    assert_eq!(interpret_answer(&options, &"\n".to_string()).unwrap_err(), AnswerError::EmptyName);
    assert!(matches!(interpret_answer(&Vec::new(), &"0\n".to_string()), Err(AnswerError::NoSuchOption(0))));
}

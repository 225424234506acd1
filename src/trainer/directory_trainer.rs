use vstd::prelude::*;

use crate::detection::photo::Photo;
use crate::ident::{is_uuid_text, new_uuid};
use crate::trainer::{capture_group, regex_capture};

verus! {

/// Where a training image's path names its person: the lowercase segment
/// (letters and `_`) that is followed by `/` and the rest of the path.
pub const PERSON_NAME_PATTERN: &'static str = "(?:.*\\/)?([a-z_]+)\\/.*$";

/// The person label of a training image's path, as the pattern finds it.
pub open spec fn person_label(path: Seq<char>) -> Option<Seq<char>> {
    regex_capture(PERSON_NAME_PATTERN@, path, 1)
}

#[derive(Clone, Debug)]
pub enum TrainingError {
    /// No person label can be read from this path.
    NameNotFound(String),
    /// The image at this path has no detected face.
    NoFaceDetected(String),
}

/// What training decided for one image: confirm the face `face_uuid` as the
/// person `person_uuid`, creating that person first, with this name, when
/// `new_person_name` is set.
#[derive(Clone, Debug)]
pub struct Moderation {
    pub face_uuid: String,
    pub person_uuid: String,
    pub new_person_name: Option<String>,
}

/// Trains from a directory of labelled images, one person per label. The
/// people resolved so far are kept as (label, person identifier) in the order
/// they were first met; each label occurs once.
pub struct DirectoryTrainer {
    pub dir: String,
    pub people: Vec<(String, String)>,
}

/// The person identifier recorded for `name`, if any.
pub open spec fn lookup(people: Seq<(String, String)>, name: Seq<char>) -> Option<Seq<char>>
    decreases people.len(),
{
    if people.len() == 0 {
        None
    } else {
        match lookup(people.drop_last(), name) {
            Some(u) => Some(u),
            None => if people.last().0@ == name {
                Some(people.last().1@)
            } else {
                None
            },
        }
    }
}

pub open spec fn labels_unique(people: Seq<(String, String)>) -> bool {
    forall|i: int, j: int| 0 <= i < j < people.len() ==> people[i].0@ != people[j].0@
}

/// Why a training image is refused, if it is: first an unreadable label,
/// then a missing face.
pub open spec fn file_error(path: String, photo: Photo) -> Option<TrainingError> {
    if person_label(path@) is None {
        Some(TrainingError::NameNotFound(path))
    } else if photo.faces@.len() == 0 {
        Some(TrainingError::NoFaceDetected(path))
    } else {
        None
    }
}

/// Index of the first refused image of a batch, if any.
pub open spec fn first_failure(batch: Seq<(String, Photo)>) -> Option<int>
    decreases batch.len(),
{
    if batch.len() == 0 {
        None
    } else {
        match first_failure(batch.drop_last()) {
            Some(i) => Some(i),
            None => if file_error(batch.last().0, batch.last().1) is Some {
                Some(batch.len() - 1)
            } else {
                None
            },
        }
    }
}

/// How resolving `label` took the people from `before` to `after`, giving
/// `person_uuid`: a known label gives its recorded person and changes
/// nothing; a new one gets a fresh identifier, recorded last.
pub open spec fn resolved(
    before: Seq<(String, String)>,
    after: Seq<(String, String)>,
    label: Seq<char>,
    person_uuid: Seq<char>,
    created: bool,
) -> bool {
    match lookup(before, label) {
        Some(u) => person_uuid == u && !created && after == before,
        None => {
            &&& created
            &&& is_uuid_text(person_uuid)
            &&& after.len() == before.len() + 1
            &&& after.drop_last() == before
            &&& after.last().0@ == label
            &&& after.last().1@ == person_uuid
        },
    }
}

proof fn lemma_lookup_push(people: Seq<(String, String)>, entry: (String, String), name: Seq<char>)
    ensures
        lookup(people.push(entry), name) == (match lookup(people, name) {
            Some(u) => Some(u),
            None => if entry.0@ == name {
                Some(entry.1@)
            } else {
                None
            },
        }),
{
    assert(people.push(entry).drop_last() =~= people);
}

proof fn lemma_lookup_prefix(people: Seq<(String, String)>, j: int, name: Seq<char>)
    requires
        0 <= j <= people.len(),
        lookup(people.take(j), name) is Some,
    ensures
        lookup(people, name) == lookup(people.take(j), name),
    decreases people.len() - j,
{
    if j < people.len() {
        lemma_lookup_push(people.take(j), people[j], name);
        assert(people.take(j).push(people[j]) =~= people.take(j + 1));
        lemma_lookup_prefix(people, j + 1, name);
    } else {
        assert(people.take(j) =~= people);
    }
}

proof fn lemma_lookup_absent(people: Seq<(String, String)>, name: Seq<char>)
    requires
        lookup(people, name) is None,
    ensures
        forall|i: int| 0 <= i < people.len() ==> (#[trigger] people[i]).0@ != name,
    decreases people.len(),
{
    if people.len() > 0 {
        lemma_lookup_absent(people.drop_last(), name);
        assert forall|i: int| 0 <= i < people.len() implies (#[trigger] people[i]).0@ != name by {
            if i < people.len() - 1 {
                assert(people[i] == people.drop_last()[i]);
            }
        }
    }
}

proof fn lemma_first_failure_at(batch: Seq<(String, Photo)>, i: int)
    requires
        0 <= i < batch.len(),
        first_failure(batch.take(i)) is None,
        file_error(batch[i].0, batch[i].1) is Some,
    ensures
        first_failure(batch) == Some(i),
    decreases batch.len(),
{
    assert(batch.take(i + 1).drop_last() =~= batch.take(i));
    if batch.len() > i + 1 {
        assert(batch.drop_last().take(i) =~= batch.take(i));
        lemma_first_failure_at(batch.drop_last(), i);
    } else {
        assert(batch.take(i) =~= batch.drop_last());
    }
}

proof fn lemma_no_failure(batch: Seq<(String, Photo)>)
    requires
        first_failure(batch) is None,
    ensures
        forall|k: int| 0 <= k < batch.len() ==> file_error(#[trigger] batch[k].0, batch[k].1) is None,
    decreases batch.len(),
{
    if batch.len() > 0 {
        lemma_no_failure(batch.drop_last());
        assert forall|k: int| 0 <= k < batch.len() implies file_error(
            #[trigger] batch[k].0,
            batch[k].1,
        ) is None by {
            if k < batch.len() - 1 {
                assert(batch[k] == batch.drop_last()[k]);
            }
        }
    }
}

impl DirectoryTrainer {
    pub open spec fn wf(&self) -> bool {
        labels_unique(self.people@)
    }

    pub fn new(dir: String) -> (r: DirectoryTrainer)
        ensures
            r.dir == dir,
            r.people@.len() == 0,
            r.wf(),
    {
        Self { dir: dir, people: Vec::new() }
    }

    /// Reads the person label from a training image's path.
    pub fn parse_name(file_path: &String) -> (r: Result<String, TrainingError>)
        ensures
            match person_label(file_path@) {
                Some(label) => r matches Ok(name) && name@ == label,
                None => r matches Err(e) && e == TrainingError::NameNotFound(*file_path),
            },
    {
        match capture_group(PERSON_NAME_PATTERN, file_path.as_str(), 1) {
            Some(name) => Ok(name),
            None => Err(TrainingError::NameNotFound(file_path.clone())),
        }
    }

    /// The person identifier recorded for `name`, if any.
    pub fn find_person_uuid(&self, name: &String) -> (r: Option<String>)
        ensures
            match lookup(self.people@, name@) {
                Some(u) => r matches Some(s) && s@ == u,
                None => r is None,
            },
    {
        let mut k: usize = 0;
        assert(self.people@.take(0) =~= Seq::<(String, String)>::empty());
        while k < self.people.len()
            invariant
                0 <= k <= self.people@.len(),
                lookup(self.people@.take(k as int), name@) is None,
            decreases self.people@.len() - k,
        {
            proof {
                lemma_lookup_push(self.people@.take(k as int), self.people@[k as int], name@);
                assert(self.people@.take(k as int).push(self.people@[k as int]) =~= self.people@.take(
                    k + 1,
                ));
            }
            if self.people[k].0 == *name {
                proof {
                    lemma_lookup_prefix(self.people@, k + 1, name@);
                }
                return Some(self.people[k].1.clone());
            }
            k = k + 1;
        }
        assert(self.people@.take(k as int) =~= self.people@);
        None
    }

    /// The person for `name`: the one recorded for it, or a new identifier,
    /// recorded for it. Returns the identifier and whether it is new.
    pub fn get_person_uuid(&mut self, name: String) -> (r: (String, bool))
        requires
            old(self).wf(),
        ensures
            final(self).wf(),
            final(self).dir == old(self).dir,
            resolved(old(self).people@, final(self).people@, name@, r.0@, r.1),
    {
        match self.find_person_uuid(&name) {
            Some(uuid) => (uuid, false),
            None => {
                let uuid = new_uuid();
                proof {
                    lemma_lookup_absent(self.people@, name@);
                }
                self.people.push((name, uuid.clone()));
                assert(self.people@.drop_last() =~= old(self).people@);
                (uuid, true)
            },
        }
    }

    /// Checks one training image: its path must carry a label and the
    /// image must have a face.
    pub fn check_file(file_path: &String, photo: &Photo) -> (r: Result<(), TrainingError>)
        ensures
            match file_error(*file_path, *photo) {
                Some(e) => r == Err::<(), TrainingError>(e),
                None => r is Ok,
            },
    {
        match Self::parse_name(file_path) {
            Err(e) => Err(e),
            Ok(_) => if photo.faces.len() == 0 {
                Err(TrainingError::NoFaceDetected(file_path.clone()))
            } else {
                Ok(())
            },
        }
    }

    /// Trains on one image, already ingested as `photo`: reads the person
    /// label from its path, resolves that label to a person, and confirms
    /// the image's first face as that person. A refused image changes
    /// nothing.
    pub fn process_photo(&mut self, file_path: &String, photo: &Photo) -> (r: Result<
        Moderation,
        TrainingError,
    >)
        requires
            old(self).wf(),
        ensures
            final(self).wf(),
            final(self).dir == old(self).dir,
            match file_error(*file_path, *photo) {
                Some(e) => r == Err::<Moderation, TrainingError>(e) && final(self).people
                    == old(self).people,
                None => r matches Ok(m) && {
                    let label = person_label(file_path@).unwrap();
                    &&& m.face_uuid == photo.faces@[0].uuid
                    &&& resolved(
                        old(self).people@,
                        final(self).people@,
                        label,
                        m.person_uuid@,
                        m.new_person_name is Some,
                    )
                    &&& (m.new_person_name matches Some(n) ==> n@ == label)
                },
            },
    {
        let name = match Self::parse_name(file_path) {
            Err(e) => return Err(e),
            Ok(name) => name,
        };
        if photo.faces.len() == 0 {
            return Err(TrainingError::NoFaceDetected(file_path.clone()));
        }
        let label = name.clone();
        let (person_uuid, created) = self.get_person_uuid(name);
        let new_person_name = if created {
            Some(label)
        } else {
            None
        };
        Ok(Moderation { face_uuid: photo.faces[0].uuid.clone(), person_uuid, new_person_name })
    }

    /// Trains on a batch of ingested images, each given with its path, in
    /// order. When any image is refused, the first refusal is returned and
    /// nothing changes. Otherwise each image's first face is confirmed as the
    /// person of its label: a label met before (here or in an earlier batch)
    /// gives the same person, and each new label one new person, created at
    /// its first image.
    pub fn call(&mut self, batch: &Vec<(String, Photo)>) -> (r: Result<Vec<Moderation>, TrainingError>)
        requires
            old(self).wf(),
        ensures
            final(self).wf(),
            final(self).dir == old(self).dir,
            match first_failure(batch@) {
                Some(i) => r == Err::<Vec<Moderation>, TrainingError>(
                    file_error(batch@[i].0, batch@[i].1).unwrap(),
                ) && final(self).people == old(self).people,
                None => r is Ok,
            },
            r matches Ok(mods) ==> {
                &&& mods@.len() == batch@.len()
                &&& forall|i: int|
                    0 <= i < batch@.len() ==> {
                        let label = #[trigger] person_label(batch@[i].0@).unwrap();
                        &&& mods@[i].face_uuid == batch@[i].1.faces@[0].uuid
                        &&& lookup(final(self).people@, label) == Some(mods@[i].person_uuid@)
                        &&& (mods@[i].new_person_name is Some <==> (lookup(
                            old(self).people@,
                            label,
                        ) is None && forall|j: int|
                            0 <= j < i ==> person_label(batch@[j].0@).unwrap() != label))
                        &&& (mods@[i].new_person_name matches Some(n) ==> n@ == label
                            && is_uuid_text(mods@[i].person_uuid@))
                    }
                &&& forall|name: Seq<char>|
                    #[trigger] lookup(old(self).people@, name) is Some ==> lookup(
                        final(self).people@,
                        name,
                    ) == lookup(old(self).people@, name)
                &&& forall|name: Seq<char>|
                    #[trigger] lookup(final(self).people@, name) is Some <==> (lookup(
                        old(self).people@,
                        name,
                    ) is Some || exists|i: int|
                        0 <= i < batch@.len() && person_label(batch@[i].0@) == Some(name))
            },
    {
        let mut i: usize = 0;
        while i < batch.len()
            invariant
                0 <= i <= batch@.len(),
                first_failure(batch@.take(i as int)) is None,
                self.wf(),
                self.people == old(self).people,
                self.dir == old(self).dir,
            decreases batch@.len() - i,
        {
            assert(batch@.take(i + 1).drop_last() =~= batch@.take(i as int));
            match Self::check_file(&batch[i].0, &batch[i].1) {
                Err(e) => {
                    proof {
                        lemma_first_failure_at(batch@, i as int);
                    }
                    return Err(e);
                },
                Ok(()) => {},
            }
            i = i + 1;
        }
        assert(batch@.take(i as int) =~= batch@);
        proof {
            lemma_no_failure(batch@);
        }
        let ghost start = self.people@;
        let mut mods: Vec<Moderation> = Vec::new();
        let mut i: usize = 0;
        while i < batch.len()
            invariant
                0 <= i <= batch@.len(),
                self.wf(),
                self.dir == old(self).dir,
                start == old(self).people@,
                forall|k: int| 0 <= k < batch@.len() ==> file_error(#[trigger] batch@[k].0, batch@[k].1) is None,
                mods@.len() == i,
                forall|k: int|
                    0 <= k < i ==> {
                        let label = #[trigger] person_label(batch@[k].0@).unwrap();
                        &&& mods@[k].face_uuid == batch@[k].1.faces@[0].uuid
                        &&& lookup(self.people@, label) == Some(mods@[k].person_uuid@)
                        &&& (mods@[k].new_person_name is Some <==> (lookup(start, label) is None
                            && forall|j: int|
                            0 <= j < k ==> person_label(batch@[j].0@).unwrap() != label))
                        &&& (mods@[k].new_person_name matches Some(n) ==> n@ == label
                            && is_uuid_text(mods@[k].person_uuid@))
                    },
                forall|name: Seq<char>|
                    #[trigger] lookup(start, name) is Some ==> lookup(self.people@, name) == lookup(
                        start,
                        name,
                    ),
                forall|name: Seq<char>|
                    #[trigger] lookup(self.people@, name) is Some <==> (lookup(start, name) is Some
                        || exists|k: int|
                        0 <= k < i && person_label(batch@[k].0@) == Some(name)),
            decreases batch@.len() - i,
        {
            let ghost before = self.people@;
            assert(file_error(batch@[i as int].0, batch@[i as int].1) is None);
            let m = match self.process_photo(&batch[i].0, &batch[i].1) {
                Ok(m) => m,
                Err(_) => {
                    assert(false);
                    return Err(TrainingError::NameNotFound(batch[i].0.clone()));
                },
            };
            let ghost label = person_label(batch@[i as int].0@).unwrap();
            proof {
                if lookup(before, label) is None {
                    let entry = self.people@.last();
                    assert(self.people@ == before.push(entry));
                    assert forall|name: Seq<char>| #[trigger]
                        lookup(self.people@, name) == (match lookup(before, name) {
                            Some(u) => Some(u),
                            None => if entry.0@ == name {
                                Some(entry.1@)
                            } else {
                                None
                            },
                        }) by {
                        lemma_lookup_push(before, entry, name);
                    }
                }
                assert forall|name: Seq<char>|
                    #[trigger] lookup(self.people@, name) is Some <==> (lookup(start, name) is Some
                        || exists|k: int|
                        0 <= k < i + 1 && person_label(batch@[k].0@) == Some(name)) by {
                    if lookup(self.people@, name) is Some && !(lookup(start, name) is Some) {
                        if lookup(before, name) is Some {
                            let k = choose|k: int|
                                0 <= k < i && person_label(batch@[k].0@) == Some(name);
                            assert(0 <= k < i + 1 && person_label(batch@[k].0@) == Some(name));
                        } else {
                            assert(person_label(batch@[i as int].0@) == Some(name));
                        }
                    }
                    if exists|k: int| 0 <= k < i + 1 && person_label(batch@[k].0@) == Some(name) {
                        let k = choose|k: int|
                            0 <= k < i + 1 && person_label(batch@[k].0@) == Some(name);
                        if k < i {
                            assert(lookup(before, name) is Some);
                        }
                    }
                }
                if lookup(before, label) is None {
                    assert forall|k: int| 0 <= k < i implies person_label(batch@[k].0@).unwrap()
                        != label by {
                        if person_label(batch@[k].0@).unwrap() == label {
                            assert(file_error(batch@[k].0, batch@[k].1) is None);
                            assert(person_label(batch@[k].0@) == Some(label));
                        }
                    }
                }
                if lookup(before, label) is Some {
                    if lookup(start, label) is None {
                        let k = choose|k: int|
                            0 <= k < i && person_label(batch@[k].0@) == Some(label);
                        assert(person_label(batch@[k].0@).unwrap() == label);
                    }
                }
            }
            mods.push(m);
            i = i + 1;
        }
        Ok(mods)
    }
}

} // verus!

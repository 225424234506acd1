use vstd::prelude::*;

use crate::db::face::Face;
use crate::db::person::Person;
use crate::detection::photo::Photo;
use crate::recognition::Data;

verus! {

/// Auto-accept threshold, 0.6 in the metric's unit: a nearest candidate
/// strictly closer than this is assigned without confirmation.
pub const MAX_DISTANCE: u64 = 600_000;

/// The outcome of ingesting and matching one image: the detection result,
/// each face's identifier with its candidate list (in face order), and the
/// accepted matches as (person name, distance).
pub struct ProcessingResult {
    pub photo: Photo,
    pub display_data: Vec<(String, u64)>,
    pub face_matches: Vec<(String, Data)>,
}

/// The match that is accepted from a candidate list: its first candidate,
/// when that has a person and lies strictly below the threshold.
pub open spec fn accepted(matches: Seq<(Option<Person>, u64)>) -> Option<(Person, u64)> {
    if matches.len() > 0 && matches[0].0 is Some && matches[0].1 < MAX_DISTANCE {
        Some((matches[0].0.unwrap(), matches[0].1))
    } else {
        None
    }
}

/// The assignments (face identifier, person identifier) to make for each
/// face of `face_matches`, in order.
pub open spec fn assignments(face_matches: Seq<(String, Data)>) -> Seq<(Seq<char>, Seq<char>)>
    decreases face_matches.len(),
{
    if face_matches.len() == 0 {
        Seq::empty()
    } else {
        let rest = assignments(face_matches.drop_last());
        match accepted(face_matches.last().1.matches@) {
            Some(m) => rest.push((face_matches.last().0@, m.0.uuid@)),
            None => rest,
        }
    }
}

/// The (person name, distance) pairs shown for the accepted matches.
pub open spec fn displayed(face_matches: Seq<(String, Data)>) -> Seq<(Seq<char>, u64)>
    decreases face_matches.len(),
{
    if face_matches.len() == 0 {
        Seq::empty()
    } else {
        let rest = displayed(face_matches.drop_last());
        match accepted(face_matches.last().1.matches@) {
            Some(m) => rest.push((m.0.name@, m.1)),
            None => rest,
        }
    }
}

pub open spec fn pair_views(s: Seq<(String, String)>) -> Seq<(Seq<char>, Seq<char>)> {
    s.map_values(|p: (String, String)| (p.0@, p.1@))
}

pub open spec fn display_views(s: Seq<(String, u64)>) -> Seq<(Seq<char>, u64)> {
    s.map_values(|p: (String, u64)| (p.0@, p.1))
}

/// The match to accept from a face's candidate list, if any.
pub fn accepted_match(data: &Data) -> (r: Option<(Person, u64)>)
    ensures
        r == accepted(data.matches@),
{
    if data.matches.len() > 0 && data.matches[0].1 < MAX_DISTANCE {
        match &data.matches[0].0 {
            Some(person) => Some((person.duplicate(), data.matches[0].1)),
            None => None,
        }
    } else {
        None
    }
}

/// Pairs each face of a detection result with its candidate list.
pub fn recognize_faces(photo: Photo, matches: Vec<Data>) -> (r: ProcessingResult)
    requires
        matches@.len() == photo.faces@.len(),
    ensures
        r.photo == photo,
        r.display_data@.len() == 0,
        r.face_matches@.len() == photo.faces@.len(),
        forall|i: int|
            0 <= i < photo.faces@.len() ==> (#[trigger] r.face_matches@[i]).0 == photo.faces@[i].uuid
                && r.face_matches@[i].1 == matches@[i],
{
    let mut face_matches: Vec<(String, Data)> = Vec::new();
    let mut rest = matches;
    let ghost all = rest@;
    let n = photo.faces.len();
    let mut i: usize = 0;
    while i < n
        invariant
            0 <= i <= n,
            n == photo.faces@.len(),
            all.len() == n,
            rest@ == all.skip(i as int),
            face_matches@.len() == i,
            forall|k: int|
                0 <= k < i ==> (#[trigger] face_matches@[k]).0 == photo.faces@[k].uuid
                    && face_matches@[k].1 == all[k],
        decreases n - i,
    {
        let data = rest.remove(0);
        assert(all.skip(i as int).remove(0) =~= all.skip(i + 1));
        face_matches.push((photo.faces[i].uuid.clone(), data));
        i = i + 1;
    }
    ProcessingResult { photo, display_data: Vec::new(), face_matches }
}

impl ProcessingResult {
    /// Whether the image had any face.
    pub fn is_face_found(&self) -> (r: bool)
        ensures
            r == self.photo.face_detected,
    {
        self.photo.face_detected
    }

    /// Applies the auto-accept rule to every face: sets `display_data` to
    /// the accepted (person name, distance) pairs and returns the
    /// (face identifier, person identifier) assignments to store, both in
    /// face order. A face whose nearest candidate has no person, or is not
    /// strictly below the threshold, gets no assignment.
    pub fn accept_matches(&mut self) -> (r: Vec<(String, String)>)
        ensures
            pair_views(r@) == assignments(old(self).face_matches@),
            display_views(final(self).display_data@) == displayed(old(self).face_matches@),
            final(self).face_matches == old(self).face_matches,
            final(self).photo == old(self).photo,
    {
        let mut result: Vec<(String, String)> = Vec::new();
        let mut display: Vec<(String, u64)> = Vec::new();
        let mut i: usize = 0;
        while i < self.face_matches.len()
            invariant
                0 <= i <= self.face_matches@.len(),
                self.face_matches == old(self).face_matches,
                self.photo == old(self).photo,
                pair_views(result@) == assignments(self.face_matches@.take(i as int)),
                display_views(display@) == displayed(self.face_matches@.take(i as int)),
            decreases self.face_matches@.len() - i,
        {
            assert(self.face_matches@.take(i + 1).drop_last() =~= self.face_matches@.take(i as int));
            match accepted_match(&self.face_matches[i].1) {
                Some((person, distance)) => {
                    result.push((self.face_matches[i].0.clone(), person.uuid));
                    display.push((person.name, distance));
                    assert(pair_views(result@) =~= pair_views(result@.drop_last()).push(
                        (result@.last().0@, result@.last().1@),
                    ));
                    assert(display_views(display@) =~= display_views(display@.drop_last()).push(
                        (display@.last().0@, display@.last().1),
                    ));
                },
                None => {},
            }
            i = i + 1;
        }
        assert(self.face_matches@.take(i as int) =~= self.face_matches@);
        self.display_data = display;
        result
    }
}

/// A face is auto-assigned exactly when the first candidate of its list has
/// a person and lies strictly below the threshold; it is then assigned that
/// person, and that person's name is shown with the distance.
pub proof fn auto_assignment_rule(face_uuid: String, data: Data)
    ensures
        ({
            let assigned = assignments(seq![(face_uuid, data)]);
            let shown = displayed(seq![(face_uuid, data)]);
            let m = data.matches@;
            if m.len() > 0 && m[0].0 is Some && m[0].1 < MAX_DISTANCE {
                &&& assigned == seq![(face_uuid@, m[0].0.unwrap().uuid@)]
                &&& shown == seq![(m[0].0.unwrap().name@, m[0].1)]
            } else {
                assigned.len() == 0 && shown.len() == 0
            }
        }),
{
    let fm = seq![(face_uuid, data)];
    let none = Seq::<(String, Data)>::empty();
    assert(fm.drop_last() =~= none);
    assert(assignments(none).len() == 0);
    assert(displayed(none).len() == 0);
    assert(fm.last() == (face_uuid, data));
    let m = data.matches@;
    if m.len() > 0 && m[0].0 is Some && m[0].1 < MAX_DISTANCE {
        assert(assignments(fm) == assignments(none).push((face_uuid@, m[0].0.unwrap().uuid@)));
        assert(assignments(fm) =~= seq![(face_uuid@, m[0].0.unwrap().uuid@)]);
        assert(displayed(fm) == displayed(none).push((m[0].0.unwrap().name@, m[0].1)));
        assert(displayed(fm) =~= seq![(m[0].0.unwrap().name@, m[0].1)]);
    } else {
        assert(assignments(fm) == assignments(none));
        assert(displayed(fm) == displayed(none));
    }
}

/// With no confirmed face among the stored ones, every face's candidate
/// list is empty and nothing is auto-assigned.
pub proof fn empty_corpus_assigns_nothing(corpus: Seq<(Face, u64)>, people: Seq<Person>)
    requires
        forall|i: int| 0 <= i < corpus.len() ==> !(#[trigger] corpus[i]).0.moderated,
    ensures
        crate::recognition::match_list(corpus, people).len() == 0,
        accepted(crate::recognition::match_list(corpus, people)) is None,
    decreases corpus.len(),
{
    if corpus.len() > 0 {
        empty_corpus_assigns_nothing(corpus.drop_last(), people);
        assert(!corpus[corpus.len() - 1].0.moderated);
    }
    crate::recognition::lemma_sorted_by_distance(crate::recognition::candidates(corpus, people));
}

} // verus!

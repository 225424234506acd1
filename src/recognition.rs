use vstd::prelude::*;

use crate::db::face::Face;
use crate::db::person::Person;

verus! {

/// Distances are held in millionths of the metric's unit.
pub const DISTANCE_SCALE: u64 = 1_000_000;

/// Inserts `x` after every leading element whose distance is at most its own.
pub open spec fn insert_by_distance<T>(s: Seq<(T, u64)>, x: (T, u64)) -> Seq<(T, u64)>
    decreases s.len(),
{
    if s.len() == 0 {
        seq![x]
    } else if x.1 < s[0].1 {
        seq![x] + s
    } else {
        seq![s[0]] + insert_by_distance(s.drop_first(), x)
    }
}

/// The stable ordering of `s` by ascending distance: equal distances keep
/// their order in `s`.
pub open spec fn sorted_by_distance<T>(s: Seq<(T, u64)>) -> Seq<(T, u64)>
    decreases s.len(),
{
    if s.len() == 0 {
        s
    } else {
        insert_by_distance(sorted_by_distance(s.drop_last()), s.last())
    }
}

pub open spec fn is_sorted_by_distance<T>(s: Seq<(T, u64)>) -> bool {
    forall|i: int, j: int| 0 <= i <= j < s.len() ==> s[i].1 <= s[j].1
}

proof fn lemma_insert_at<T>(s: Seq<(T, u64)>, x: (T, u64), j: int)
    requires
        0 <= j <= s.len(),
        forall|k: int| 0 <= k < j ==> s[k].1 <= x.1,
        j < s.len() ==> s[j].1 > x.1,
    ensures
        insert_by_distance(s, x) == s.insert(j, x),
    decreases s.len(),
{
    if s.len() == 0 {
        assert(s.insert(j, x) =~= seq![x]);
    } else if x.1 < s[0].1 {
        assert(s.insert(j, x) =~= seq![x] + s);
    } else {
        let t = s.drop_first();
        lemma_insert_at(t, x, j - 1);
        assert(s.insert(j, x) =~= seq![s[0]] + t.insert(j - 1, x));
    }
}

proof fn lemma_insert_keeps_order<T>(s: Seq<(T, u64)>, x: (T, u64))
    requires
        is_sorted_by_distance(s),
    ensures
        is_sorted_by_distance(insert_by_distance(s, x)),
        insert_by_distance(s, x).to_multiset() == s.to_multiset().insert(x),
        insert_by_distance(s, x).len() == s.len() + 1,
    decreases s.len(),
{
    broadcast use vstd::seq_lib::group_to_multiset_ensures;

    if s.len() == 0 {
        assert(seq![x] =~= s.push(x));
    } else if x.1 < s[0].1 {
        let r = seq![x] + s;
        assert forall|i: int, j: int| 0 <= i <= j < r.len() implies r[i].1 <= r[j].1 by {
            if i > 0 {
                assert(r[i] == s[i - 1]);
                assert(r[j] == s[j - 1]);
            } else if j > 0 {
                assert(r[j] == s[j - 1]);
            }
        }
        vstd::seq_lib::lemma_multiset_commutative(seq![x], s);
        assert(seq![x] =~= Seq::<(T, u64)>::empty().push(x));
    } else {
        let t = s.drop_first();
        assert(is_sorted_by_distance(t));
        lemma_insert_keeps_order(t, x);
        let it = insert_by_distance(t, x);
        let r = seq![s[0]] + it;
        assert forall|i: int, j: int| 0 <= i <= j < r.len() implies r[i].1 <= r[j].1 by {
            if i > 0 {
                assert(r[i] == it[i - 1]);
                assert(r[j] == it[j - 1]);
            } else if j > 0 {
                assert(r[j] == it[j - 1]);
                assert(it.to_multiset().count(it[j - 1]) > 0);
                if it[j - 1] == x {
                } else {
                    assert(t.to_multiset().count(it[j - 1]) > 0);
                    assert(t.contains(it[j - 1]));
                    let k = choose|k: int| 0 <= k < t.len() && t[k] == it[j - 1];
                    assert(t[k] == s[k + 1]);
                }
            }
        }
        vstd::seq_lib::lemma_multiset_commutative(seq![s[0]], it);
        vstd::seq_lib::lemma_multiset_commutative(seq![s[0]], t);
        assert(s =~= seq![s[0]] + t);
    }
}

/// The stable ordering by distance is ordered, and a rearrangement of its
/// input.
pub proof fn lemma_sorted_by_distance<T>(s: Seq<(T, u64)>)
    ensures
        is_sorted_by_distance(sorted_by_distance(s)),
        sorted_by_distance(s).to_multiset() == s.to_multiset(),
        sorted_by_distance(s).len() == s.len(),
    decreases s.len(),
{
    broadcast use vstd::seq_lib::group_to_multiset_ensures;

    if s.len() > 0 {
        lemma_sorted_by_distance(s.drop_last());
        lemma_insert_keeps_order(sorted_by_distance(s.drop_last()), s.last());
        assert(s =~= s.drop_last().push(s.last()));
    }
}

/// The person whose identifier is `person_uuid`, the first such in `people`;
/// none for an empty identifier.
pub open spec fn person_for(person_uuid: Seq<char>, people: Seq<Person>) -> Option<Person>
    decreases people.len(),
{
    if person_uuid.len() == 0 || people.len() == 0 {
        None
    } else if people[0].uuid@ == person_uuid {
        Some(people[0])
    } else {
        person_for(person_uuid, people.drop_first())
    }
}

/// One candidate for each confirmed face of `corpus`, in corpus order: the
/// person assigned to that face (if any) and its distance.
pub open spec fn candidates(corpus: Seq<(Face, u64)>, people: Seq<Person>) -> Seq<
    (Option<Person>, u64),
>
    decreases corpus.len(),
{
    if corpus.len() == 0 {
        Seq::empty()
    } else {
        let rest = candidates(corpus.drop_last(), people);
        let (face, distance) = corpus.last();
        if face.moderated {
            rest.push((person_for(face.person_uuid@, people), distance))
        } else {
            rest
        }
    }
}

/// The candidate list for a face: confirmed faces only, nearest first.
pub open spec fn match_list(corpus: Seq<(Face, u64)>, people: Seq<Person>) -> Seq<
    (Option<Person>, u64),
> {
    sorted_by_distance(candidates(corpus, people))
}

/// Every candidate list is ordered by ascending distance, whatever the
/// stored faces and persons.
pub proof fn candidate_lists_are_sorted(corpus: Seq<(Face, u64)>, people: Seq<Person>)
    ensures
        is_sorted_by_distance(match_list(corpus, people)),
{
    lemma_sorted_by_distance(candidates(corpus, people));
}

/// Looks up the person with identifier `person_uuid` in `people`.
pub fn find_person(person_uuid: &String, people: &Vec<Person>) -> (r: Option<Person>)
    ensures
        r == person_for(person_uuid@, people@),
{
    if person_uuid.as_str().unicode_len() == 0 {
        return None;
    }
    let mut k: usize = 0;
    assert(people@.skip(0) =~= people@);
    while k < people.len()
        invariant
            0 <= k <= people@.len(),
            person_uuid@.len() > 0,
            person_for(person_uuid@, people@) == person_for(person_uuid@, people@.skip(k as int)),
        decreases people@.len() - k,
    {
        assert(people@.skip(k as int).drop_first() =~= people@.skip(k + 1));
        if people[k].uuid == *person_uuid {
            return Some(people[k].duplicate());
        }
        k = k + 1;
    }
    None
}

/// Matches one face against the stored faces. `corpus` pairs each stored
/// face with its distance to the face being matched, and `people` holds the
/// known persons. Only confirmed faces take part; each yields its assigned
/// person, or none. The result is ordered by ascending distance, ties in
/// corpus order.
pub fn find_matches(corpus: &Vec<(Face, u64)>, people: &Vec<Person>) -> (r: Data)
    ensures
        r.matches@ == match_list(corpus@, people@),
        is_sorted_by_distance(r.matches@),
{
    let mut result = Data::new();
    let mut i: usize = 0;
    while i < corpus.len()
        invariant
            0 <= i <= corpus@.len(),
            result.matches@ == candidates(corpus@.take(i as int), people@),
        decreases corpus@.len() - i,
    {
        assert(corpus@.take(i + 1).drop_last() =~= corpus@.take(i as int));
        let (face, distance) = (&corpus[i].0, corpus[i].1);
        if face.moderated {
            let person = find_person(&face.person_uuid, people);
            result.matches.push((person, distance));
        }
        i = i + 1;
    }
    assert(corpus@.take(i as int) =~= corpus@);
    Data::order_matches(&mut result.matches);
    result
}

/// Outcome of matching one face against the confirmed faces: each candidate
/// person (or none) with its distance, nearest first.
pub struct Data {
    pub matches: Vec<(Option<Person>, u64)>,
}

impl Data {
    pub fn new() -> (r: Self)
        ensures
            r.matches@.len() == 0,
    {
        Self { matches: Vec::new() }
    }

    /// Orders `matches` by ascending distance, keeping the order of equal
    /// distances.
    pub fn order_matches<T>(matches: &mut Vec<(T, u64)>)
        ensures
            final(matches)@ == sorted_by_distance(old(matches)@),
            is_sorted_by_distance(final(matches)@),
            final(matches)@.to_multiset() == old(matches)@.to_multiset(),
    {
        let ghost input = matches@;
        let mut sorted: Vec<(T, u64)> = Vec::new();
        let n = matches.len();
        let mut i: usize = 0;
        while i < n
            invariant
                0 <= i <= n,
                n == input.len(),
                matches@ == input.skip(i as int),
                sorted@ == sorted_by_distance(input.take(i as int)),
            decreases n - i,
        {
            let x = matches.remove(0);
            assert(x == input[i as int]);
            let mut j: usize = 0;
            while j < sorted.len() && sorted[j].1 <= x.1
                invariant
                    0 <= j <= sorted@.len(),
                    forall|k: int| 0 <= k < j ==> sorted@[k].1 <= x.1,
                decreases sorted@.len() - j,
            {
                j = j + 1;
            }
            proof {
                lemma_insert_at(sorted@, x, j as int);
                assert(input.take(i + 1).drop_last() =~= input.take(i as int));
                assert(input.skip(i as int).remove(0) =~= input.skip(i + 1));
            }
            sorted.insert(j, x);
            i = i + 1;
        }
        proof {
            assert(input.take(n as int) =~= input);
            lemma_sorted_by_distance(input);
        }
        *matches = sorted;
    }
}

} // verus!

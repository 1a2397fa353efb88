//! Courses shared by pairs of students.
//!
//! The input is a list of `(student, course)` enrolment rows. The rows
//! are first grouped per student, keeping the first-seen order of
//! students and each student's enrolment order of courses; then every
//! unordered pair of distinct students is mapped to the courses both
//! take. The shared courses are listed in the order of the shorter of
//! the two course lists (the first student's on a tie), duplicates
//! included as the shorter list has them.
//!
//! Students are kept in a vector of `(key, courses)` entries rather than
//! a hash map, so the grouping and the pair order are deterministic and
//! every contract pins the exact output.

use vstd::prelude::*;

verus! {

/// The courses of `target` that `dest` also contains, in `target`'s order.
pub open spec fn matches_in(target: Seq<Seq<char>>, dest: Seq<Seq<char>>) -> Seq<Seq<char>> {
    target.filter(|c: Seq<char>| dest.contains(c))
}

/// The courses two students share: the shorter course list filtered by
/// membership in the longer (ties keep `left` as the one filtered).
pub open spec fn shared_courses(left: Seq<Seq<char>>, right: Seq<Seq<char>>) -> Seq<Seq<char>> {
    if right.len() >= left.len() {
        matches_in(left, right)
    } else {
        matches_in(right, left)
    }
}

/// Each enrolment row reduced to its `(student, course)` pair.
pub open spec fn enrollment_pairs(rows: Seq<Seq<Seq<char>>>) -> Seq<(Seq<char>, Seq<char>)> {
    Seq::new(rows.len(), |i: int| (rows[i][0], rows[i][1]))
}

/// The index of `key` among the grouped entries; the length when absent.
pub open spec fn key_index(groups: Seq<(Seq<char>, Seq<Seq<char>>)>, key: Seq<char>) -> int
    decreases groups.len(),
{
    if groups.len() == 0 {
        0
    } else if groups[0].0 == key {
        0
    } else {
        1 + key_index(groups.drop_first(), key)
    }
}

/// `key_index` names the first entry carrying `key`, or the length.
pub proof fn lemma_key_index(groups: Seq<(Seq<char>, Seq<Seq<char>>)>, key: Seq<char>)
    ensures
        0 <= key_index(groups, key) <= groups.len(),
        key_index(groups, key) < groups.len() ==> groups[key_index(groups, key)].0 == key,
        forall|j: int| 0 <= j < key_index(groups, key) ==> (#[trigger] groups[j]).0 != key,
    decreases groups.len(),
{
    if groups.len() > 0 && groups[0].0 != key {
        lemma_key_index(groups.drop_first(), key);
        assert(forall|j: int|
            1 <= j < key_index(groups, key) ==> (#[trigger] groups[j]) == groups.drop_first()[j
                - 1]);
    }
}

/// One enrolment row folded into the grouped entries: the course joins
/// its student's list, or opens a new entry at the end.
pub open spec fn add_row(
    groups: Seq<(Seq<char>, Seq<Seq<char>>)>,
    key: Seq<char>,
    course: Seq<char>,
) -> Seq<(Seq<char>, Seq<Seq<char>>)> {
    let i = key_index(groups, key);
    if i < groups.len() {
        groups.update(i, (key, groups[i].1.push(course)))
    } else {
        groups.push((key, seq![course]))
    }
}

/// All enrolment rows folded left to right.
pub open spec fn grouped(rows: Seq<(Seq<char>, Seq<char>)>) -> Seq<(Seq<char>, Seq<Seq<char>>)>
    decreases rows.len(),
{
    if rows.len() == 0 {
        Seq::empty()
    } else {
        add_row(grouped(rows.drop_last()), rows.last().0, rows.last().1)
    }
}

/// The pair entry for students at indices `a` and `b`.
pub open spec fn pair_entry(groups: Seq<(Seq<char>, Seq<Seq<char>>)>, a: int, b: int) -> (
    (Seq<char>, Seq<char>),
    Seq<Seq<char>>,
) {
    ((groups[a].0, groups[b].0), shared_courses(groups[a].1, groups[b].1))
}

/// The pairs of student `a` with every student strictly between `a` and
/// `j`, in index order.
pub open spec fn pairs_with(groups: Seq<(Seq<char>, Seq<Seq<char>>)>, a: int, j: int) -> Seq<
    ((Seq<char>, Seq<char>), Seq<Seq<char>>),
>
    decreases j - a,
{
    if j <= a + 1 {
        Seq::empty()
    } else {
        pairs_with(groups, a, j - 1).push(pair_entry(groups, a, j - 1))
    }
}

/// The pairs of all students with index below `i` against every later
/// student.
pub open spec fn pairs_before(groups: Seq<(Seq<char>, Seq<Seq<char>>)>, i: int) -> Seq<
    ((Seq<char>, Seq<char>), Seq<Seq<char>>),
>
    decreases i,
{
    if i <= 0 {
        Seq::empty()
    } else {
        pairs_before(groups, i - 1) + pairs_with(groups, i - 1, groups.len() as int)
    }
}

/// Every unordered pair of distinct students, earlier index first.
pub open spec fn all_pairs(groups: Seq<(Seq<char>, Seq<Seq<char>>)>) -> Seq<
    ((Seq<char>, Seq<char>), Seq<Seq<char>>),
> {
    pairs_before(groups, groups.len() as int)
}

/// Whether `courses` contains `name`, by character content.
fn contains_course(courses: &Vec<String>, name: &String) -> (r: bool)
    ensures
        r == courses.deep_view().contains(name@),
{
    let mut i: usize = 0;
    while i < courses.len()
        invariant
            i <= courses@.len(),
            forall|k: int| 0 <= k < i ==> courses.deep_view()[k] != name@,
        decreases courses@.len() - i,
    {
        if courses[i] == *name {
            proof {
                assert(courses.deep_view()[i as int] == name@);
            }
            return true;
        }
        i = i + 1;
    }
    false
}

/// An element-wise copy of a course list.
fn clone_courses(v: &Vec<String>) -> (r: Vec<String>)
    ensures
        r@ == v@,
{
    let mut r: Vec<String> = Vec::new();
    let mut i: usize = 0;
    while i < v.len()
        invariant
            i <= v@.len(),
            r@ == v@.take(i as int),
        decreases v@.len() - i,
    {
        r.push(v[i].clone());
        proof {
            assert(r@ =~= v@.take(i + 1));
        }
        i = i + 1;
    }
    proof {
        assert(v@.take(v@.len() as int) =~= v@);
    }
    r
}

/// The courses both lists name: the shorter list (ties keep `left`)
/// filtered by membership in the longer, in the shorter list's order.
pub fn extract_coincidenses(left: Vec<String>, right: Vec<String>) -> (r: Vec<String>)
    ensures
        r.deep_view() == shared_courses(left.deep_view(), right.deep_view()),
{
    let (target, dest) = if right.len() >= left.len() {
        (left, right)
    } else {
        (right, left)
    };
    let mut result: Vec<String> = Vec::new();
    let mut i: usize = 0;
    while i < target.len()
        invariant
            i <= target@.len(),
            result.deep_view() == matches_in(target.deep_view().take(i as int), dest.deep_view()),
        decreases target@.len() - i,
    {
        if contains_course(&dest, &target[i]) {
            result.push(target[i].clone());
        }
        proof {
            let tv = target.deep_view();
            let dv = dest.deep_view();
            let s1 = tv.take(i + 1);
            reveal_with_fuel(Seq::filter, 2);
            assert(s1.drop_last() =~= tv.take(i as int));
            assert(s1.last() == tv[i as int]);
            assert(tv[i as int] == target@[i as int]@);
            assert(matches_in(s1, dv) == (if dv.contains(s1.last()) {
                matches_in(tv.take(i as int), dv).push(s1.last())
            } else {
                matches_in(tv.take(i as int), dv)
            }));
            assert(result.deep_view() =~~= matches_in(s1, dv));
        }
        i = i + 1;
    }
    proof {
        assert(target.deep_view().take(target@.len() as int) =~= target.deep_view());
    }
    result
}

/// The position of `key` among the entries built so far; the length when
/// the student is new.
fn find_key(groups: &Vec<(String, Vec<String>)>, key: &String) -> (r: usize)
    ensures
        r == key_index(groups.deep_view(), key@),
{
    let mut j: usize = 0;
    while j < groups.len()
        invariant
            j <= groups@.len(),
            forall|k: int| 0 <= k < j ==> (#[trigger] groups.deep_view()[k]).0 != key@,
        decreases groups@.len() - j,
    {
        if groups[j].0 == *key {
            proof {
                lemma_key_index(groups.deep_view(), key@);
                assert(groups.deep_view()[j as int].0 == key@);
            }
            return j;
        }
        j = j + 1;
    }
    proof {
        lemma_key_index(groups.deep_view(), key@);
    }
    groups.len()
}

/// Group the enrolment rows per student: students in first-seen order,
/// each student's courses in enrolment order. Every row must name a
/// student and a course.
pub fn reduce_to_course_per_students(enrollments: Vec<Vec<&str>>) -> (r: Vec<(String, Vec<String>)>)
    requires
        forall|i: int| 0 <= i < enrollments@.len() ==> (#[trigger] enrollments@[i])@.len() >= 2,
    ensures
        r.deep_view() == grouped(enrollment_pairs(enrollments.deep_view())),
{
    let mut result: Vec<(String, Vec<String>)> = Vec::new();
    let mut i: usize = 0;
    while i < enrollments.len()
        invariant
            i <= enrollments@.len(),
            forall|k: int| 0 <= k < enrollments@.len() ==> (#[trigger] enrollments@[k])@.len() >= 2,
            result.deep_view() == grouped(
                enrollment_pairs(enrollments.deep_view()).take(i as int),
            ),
        decreases enrollments@.len() - i,
    {
        let key = enrollments[i][0].to_owned();
        let value = enrollments[i][1].to_owned();
        let ghost gprev = result.deep_view();
        let j = find_key(&result, &key);
        if j < result.len() {
            let entry = result.remove(j);
            let (entry_key, mut courses) = entry;
            courses.push(value);
            result.insert(j, (entry_key, courses));
            proof {
                lemma_key_index(gprev, key@);
                assert(gprev[j as int].0 == key@);
                assert(entry_key@ == key@);
                assert(result.deep_view() =~~= add_row(gprev, key@, value@));
            }
        } else {
            let mut courses: Vec<String> = Vec::new();
            courses.push(value);
            result.push((key, courses));
            proof {
                lemma_key_index(gprev, key@);
                assert(result.deep_view() =~~= add_row(gprev, key@, value@));
            }
        }
        proof {
            let pairs = enrollment_pairs(enrollments.deep_view());
            assert(pairs.take(i + 1).drop_last() =~= pairs.take(i as int));
            assert(pairs.take(i + 1).last() == pairs[i as int]);
            assert(pairs[i as int].0 == key@ && pairs[i as int].1 == value@);
            assert(grouped(pairs.take(i + 1)) == add_row(gprev, key@, value@));
            assert(result.deep_view() == grouped(pairs.take(i + 1)));
        }
        i = i + 1;
    }
    proof {
        let pairs = enrollment_pairs(enrollments.deep_view());
        assert(pairs.take(pairs.len() as int) =~= pairs);
    }
    result
}

/// Every unordered pair of distinct students with the courses they
/// share, earlier student first, pairs in index order.
pub fn get_pairs(students: Vec<(String, Vec<String>)>) -> (r: Vec<((String, String), Vec<String>)>)
    ensures
        r.deep_view() == all_pairs(students.deep_view()),
{
    let mut result: Vec<((String, String), Vec<String>)> = Vec::new();
    let mut i: usize = 0;
    while i < students.len()
        invariant
            i <= students@.len(),
            result.deep_view() == pairs_before(students.deep_view(), i as int),
        decreases students@.len() - i,
    {
        let mut j: usize = i + 1;
        while j < students.len()
            invariant
                i < j && j <= students@.len(),
                i < students@.len(),
                result.deep_view() == pairs_before(students.deep_view(), i as int) + pairs_with(
                    students.deep_view(),
                    i as int,
                    j as int,
                ),
            decreases students@.len() - j,
        {
            let ci = clone_courses(&students[i].1);
            let cj = clone_courses(&students[j].1);
            proof {
                let sv = students.deep_view();
                assert(ci.deep_view() =~= sv[i as int].1);
                assert(cj.deep_view() =~= sv[j as int].1);
            }
            let coincidences = extract_coincidenses(ci, cj);
            let ki = students[i].0.clone();
            let kj = students[j].0.clone();
            let ghost prev_view = result@;
            let ghost prev_deep = result.deep_view();
            result.push(((ki, kj), coincidences));
            proof {
                let sv = students.deep_view();
                let e = pair_entry(sv, i as int, j as int);
                let a = pairs_before(sv, i as int);
                let b = pairs_with(sv, i as int, j as int);
                assert(pairs_with(sv, i as int, j + 1) == b.push(e));
                assert(result.deep_view()[prev_deep.len() as int] == e);
                assert forall|k: int| 0 <= k < result.deep_view().len() implies result.deep_view()[k]
                    == (a + b.push(e))[k] by {
                    if k < prev_deep.len() {
                        assert(result@[k] == prev_view[k]);
                        assert((a + b)[k] == prev_deep[k]);
                    } else {
                        assert(k == prev_deep.len());
                    }
                }
                assert(result.deep_view() =~= a + b.push(e));
            }
            j = j + 1;
        }
        proof {
            let sv = students.deep_view();
            assert(pairs_before(sv, i + 1) == pairs_before(sv, i as int) + pairs_with(
                sv,
                i as int,
                sv.len() as int,
            ));
        }
        i = i + 1;
    }
    result
}

/// For every pair of distinct students, the courses they share: the
/// rows grouped per student, then each pair computed. Every row must
/// name a student and a course.
pub fn find_pairs(enrollments: Vec<Vec<&str>>) -> (r: Vec<((String, String), Vec<String>)>)
    requires
        forall|i: int| 0 <= i < enrollments@.len() ==> (#[trigger] enrollments@[i])@.len() >= 2,
    ensures
        r.deep_view() == all_pairs(grouped(enrollment_pairs(enrollments.deep_view()))),
{
    let reduced = reduce_to_course_per_students(enrollments);
    get_pairs(reduced)
}

} // verus!

use channels::pairing::{extract_coincidenses, find_pairs, get_pairs, reduce_to_course_per_students};

fn s(text: &str) -> String {
    text.to_owned()
}

fn pair(a: &str, b: &str, shared: &[&str]) -> ((String, String), Vec<String>) {
    ((s(a), s(b)), shared.iter().map(|c| s(c)).collect())
}

#[test]
fn coincidences_keep_the_shorter_lists_order() {
    let left = vec![s("Economics"), s("Art History"), s("Mechanics")];
    let right = vec![s("Mechanics"), s("Economics"), s("Algorithms"), s("Calculus")];

    // `left` is shorter: its order decides the result's order.
    assert_eq!(extract_coincidenses(left, right), vec![s("Economics"), s("Mechanics")]);
}

#[test]
fn coincidences_on_equal_lengths_filter_the_left() {
    let left = vec![s("A"), s("B")];
    let right = vec![s("B"), s("C")];

    assert_eq!(extract_coincidenses(left, right), vec![s("B")]);
}

#[test]
fn coincidences_of_disjoint_lists_are_empty() {
    let left = vec![s("A")];
    let right = vec![s("B"), s("C")];

    assert_eq!(extract_coincidenses(left, right), Vec::<String>::new());
}

#[test]
fn grouping_keeps_first_seen_students_and_course_order() {
    let enrollments = vec![
        vec!["58", "Linear Algebra"],
        vec!["94", "Art History"],
        vec!["58", "Economics"],
        vec!["94", "Economics"],
    ];

    let grouped = reduce_to_course_per_students(enrollments);
    assert_eq!(
        grouped,
        vec![
            (s("58"), vec![s("Linear Algebra"), s("Economics")]),
            (s("94"), vec![s("Art History"), s("Economics")]),
        ]
    );
}

#[test]
fn pairs_cover_every_unordered_pair_once() {
    let students = vec![
        (s("1"), vec![s("Course 1"), s("Course 2")]),
        (s("2"), vec![s("Computer Architecture")]),
        (s("3"), vec![s("Course 1"), s("Course 2")]),
    ];

    let pairs = get_pairs(students);
    assert_eq!(
        pairs,
        vec![
            pair("1", "2", &[]),
            pair("1", "3", &["Course 1", "Course 2"]),
            pair("2", "3", &[]),
        ]
    );
}

#[test]
fn find_pairs_first_sample() {
    let enrollments = vec![
        vec!["58", "Linear Algebra"],
        vec!["94", "Art History"],
        vec!["94", "Operating Systems"],
        vec!["17", "Software Design"],
        vec!["58", "Mechanics"],
        vec!["58", "Economics"],
        vec!["17", "Linear Algebra"],
        vec!["17", "Political Science"],
        vec!["94", "Economics"],
        vec!["25", "Economics"],
        vec!["58", "Software Design"],
    ];

    let pairs = find_pairs(enrollments);
    assert_eq!(
        pairs,
        vec![
            pair("58", "94", &["Economics"]),
            pair("58", "17", &["Software Design", "Linear Algebra"]),
            pair("58", "25", &["Economics"]),
            pair("94", "17", &[]),
            pair("94", "25", &["Economics"]),
            pair("17", "25", &[]),
        ]
    );
}

#[test]
fn find_pairs_second_sample() {
    let enrollments = vec![
        vec!["0", "Advanced Mechanics"],
        vec!["0", "Art History"],
        vec!["1", "Course 1"],
        vec!["1", "Course 2"],
        vec!["2", "Computer Architecture"],
        vec!["3", "Course 1"],
        vec!["3", "Course 2"],
        vec!["4", "Algorithms"],
    ];

    let pairs = find_pairs(enrollments);
    assert_eq!(
        pairs,
        vec![
            pair("0", "1", &[]),
            pair("0", "2", &[]),
            pair("0", "3", &[]),
            pair("0", "4", &[]),
            pair("1", "2", &[]),
            pair("1", "3", &["Course 1", "Course 2"]),
            pair("1", "4", &[]),
            pair("2", "3", &[]),
            pair("2", "4", &[]),
            pair("3", "4", &[]),
        ]
    );
}

#[test]
fn find_pairs_without_shared_courses() {
    let enrollments = vec![
        vec!["23", "Software Design"],
        vec!["3", "Advanced Mechanics"],
        vec!["2", "Art History"],
        vec!["33", "Another"],
    ];

    let pairs = find_pairs(enrollments);
    assert_eq!(
        pairs,
        vec![
            pair("23", "3", &[]),
            pair("23", "2", &[]),
            pair("23", "33", &[]),
            pair("3", "2", &[]),
            pair("3", "33", &[]),
            pair("2", "33", &[]),
        ]
    );
}

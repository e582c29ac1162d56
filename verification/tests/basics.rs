use url_mapper::basics::{divmod, find, guss, increase_by_one, locate, width_of, Circle, People};
use url_mapper::guessing::{judge, secret_number, Hint};

#[test]
fn increase_by_one_adds_one() {
    assert_eq!(increase_by_one(6), 7);
    assert_eq!(increase_by_one(-1), 0);
    assert_eq!(increase_by_one(i32::MIN), i32::MIN + 1);
    assert_eq!(increase_by_one(i32::MAX - 1), i32::MAX);
}

#[test]
fn divmod_rounds_towards_zero() {
    assert_eq!(divmod(7, 2), (3, 1));
    assert_eq!(divmod(-7, 2), (-3, -1));
    assert_eq!(divmod(7, -2), (-3, 1));
    assert_eq!(divmod(-7, -2), (3, -1));
    assert_eq!(divmod(6, 10), (0, 6));
    assert_eq!(divmod(0, 5), (0, 0));
    assert_eq!(divmod(i32::MIN, 1), (i32::MIN, 0));
    assert_eq!(divmod(i32::MIN, 2), (-1073741824, 0));
    assert_eq!(divmod(i32::MAX, -1), (-i32::MAX, 0));
}

#[test]
fn divmod_parts_make_up_the_dividend() {
    for x in [-9, -8, -1, 0, 1, 8, 9, 100] {
        for y in [-4, -3, -1, 1, 3, 4] {
            let (q, r) = divmod(x, y);
            assert_eq!(q * y + r, x);
            assert!(r.abs() < y.abs());
            assert!(r == 0 || (r < 0) == (x < 0));
        }
    }
}

#[test]
fn guss_hits_only_five() {
    assert!(guss(5));
    for n in [1, 2, 3, 4, 6, 7, 8, 9, 10] {
        assert!(!guss(n));
    }
}

#[test]
fn find_gives_the_byte_offset_of_the_first_occurrence() {
    assert_eq!(find("foobar.rs", '.'), Some(6));
    assert_eq!(find("foobar", '.'), None);
    assert_eq!(find("", 'a'), None);
    assert_eq!(find("a.b.c", '.'), Some(1));
    assert_eq!(find(".", '.'), Some(0));
}

#[test]
fn find_counts_bytes_not_characters() {
    let text = "aé€😀.x";
    assert_eq!(find(text, 'a'), Some(0));
    assert_eq!(find(text, 'é'), Some(1));
    assert_eq!(find(text, '€'), Some(3));
    assert_eq!(find(text, '😀'), Some(6));
    assert_eq!(find(text, '.'), Some(10));
    assert_eq!(find(text, 'x'), Some(11));
    for needle in ['a', 'é', '€', '😀', '.', 'x', 'q'] {
        assert_eq!(find(text, needle), text.find(needle));
    }
}

#[test]
fn locate_gives_index_and_offset() {
    assert_eq!(locate("aé€😀.x", '.'), Some((4, 10)));
    assert_eq!(locate("aé€😀.x", 'z'), None);
}

#[test]
fn width_of_is_the_encoded_length() {
    for c in ['\0', 'a', '\u{7f}', '\u{80}', 'é', '\u{7ff}', '\u{800}', '€', '\u{ffff}', '\u{10000}', '😀', '\u{10ffff}'] {
        assert_eq!(width_of(c), c.len_utf8());
    }
}

#[test]
fn people_greet_by_name() {
    let peter = People::new("Peter");
    assert_eq!(peter.name(), "Peter");
    assert_eq!(peter.greeting(), "Peter say hello.");
    assert_eq!(People::new("").greeting(), " say hello.");
}

#[test]
fn circle_moves_and_keeps_its_radius() {
    let mut c = Circle::new((0, 0), 1);
    assert_eq!(c.center, (0, 0));
    assert_eq!(c.radius, 1);
    c.move_to((-1, 1));
    assert_eq!(c, Circle { center: (-1, 1), radius: 1 });
}

#[test]
fn judge_compares_guess_and_secret() {
    assert_eq!(judge(3, 50), Hint::TooSmall);
    assert_eq!(judge(80, 50), Hint::TooBig);
    assert_eq!(judge(50, 50), Hint::Win);
    assert_eq!(judge(0, u32::MAX), Hint::TooSmall);
    assert_eq!(judge(u32::MAX, 0), Hint::TooBig);
}

#[test]
fn hints_speak_and_only_a_win_ends_the_game() {
    assert_eq!(Hint::TooSmall.message(), "Too small!");
    assert_eq!(Hint::TooBig.message(), "Too big!");
    assert_eq!(Hint::Win.message(), "You win!");
    assert!(Hint::Win.ends_game());
    assert!(!Hint::TooSmall.ends_game());
    assert!(!Hint::TooBig.ends_game());
}

#[test]
fn secret_number_lies_between_one_and_a_hundred() {
    let first = secret_number();
    let mut varies = false;
    for _ in 0..400 {
        let secret = secret_number();
        assert!(1 <= secret && secret <= 100);
        if secret != first {
            varies = true;
        }
    }
    assert!(varies);
}

use fathomable::jumplist::{Jumplist, Position, CAP};

fn at(path: &str, line: usize) -> Position {
    Position {
        path: path.to_owned(),
        line,
    }
}

#[test]
fn back_returns_to_what_far_moves_left_and_forward_undoes_it() {
    let mut jumps = Jumplist::default();
    assert!(jumps.back(at("a.md", 1)).is_none(), "nothing to go back to");
    assert!(jumps.forward().is_none());

    jumps.record(at("a.md", 1));
    jumps.record(at("a.md", 9));
    // Standing at b.md:3, back lands on the newest position left.
    assert_eq!(jumps.back(at("b.md", 3)), Some(&at("a.md", 9)));
    assert_eq!(jumps.back(at("a.md", 9)), Some(&at("a.md", 1)));
    assert!(jumps.back(at("a.md", 1)).is_none());
    assert_eq!(jumps.forward(), Some(&at("a.md", 9)));
    assert_eq!(
        jumps.forward(),
        Some(&at("b.md", 3)),
        "the first step back kept where it left"
    );
    assert!(jumps.forward().is_none());
}

#[test]
fn a_far_move_after_going_back_drops_the_forward_part() {
    let mut jumps = Jumplist::default();
    jumps.record(at("a.md", 1));
    jumps.record(at("a.md", 5));
    assert_eq!(jumps.back(at("a.md", 9)), Some(&at("a.md", 5)));
    jumps.record(at("a.md", 5));
    assert!(jumps.forward().is_none(), "a.md:9 is gone");
    assert_eq!(jumps.back(at("c.md", 1)), Some(&at("a.md", 5)));
    assert_eq!(jumps.len(), 3);
}

#[test]
fn neighbouring_duplicates_collapse_and_the_oldest_fall_off() {
    let mut jumps = Jumplist::default();
    jumps.record(at("a.md", 1));
    jumps.record(at("a.md", 1));
    assert_eq!(jumps.len(), 1);
    for line in 0..CAP * 2 {
        jumps.record(at("a.md", line));
    }
    assert_eq!(jumps.len(), CAP);
    assert_eq!(jumps.back(at("z.md", 1)), Some(&at("a.md", CAP * 2 - 1)));
}

#[test]
fn back_then_forward_from_inside_the_list_returns_to_the_same_entry() {
    let mut jumps = Jumplist::new();
    for line in 1..=4 {
        jumps.record(at("a.md", line));
    }
    assert_eq!(jumps.back(at("b.md", 1)), Some(&at("a.md", 4)));
    assert_eq!(jumps.back(at("a.md", 4)), Some(&at("a.md", 3)));
    assert_eq!(jumps.forward(), Some(&at("a.md", 4)));
    assert_eq!(jumps.back(at("a.md", 4)), Some(&at("a.md", 3)));
}

#[test]
fn positions_compare_by_path_and_line() {
    assert!(at("a.md", 1).same(&at("a.md", 1)));
    assert!(!at("a.md", 1).same(&at("a.md", 2)));
    assert!(!at("a.md", 1).same(&at("b.md", 1)));
    assert_eq!(at("x.md", 7).copy(), at("x.md", 7));
}

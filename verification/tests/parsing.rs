use ant_colony::parse::{chars_of, read_signed, read_single, read_unsigned, split_fields, ParseError};
use ant_colony::tech::{Action, PointInfo};

fn text(s: &str) -> Vec<char> {
    s.chars().collect()
}

#[test]
fn an_action_is_cycle_id_amount() {
    assert_eq!(Action::from_str("3,b,15"), Ok(Action::new(3, 'b', 15)));
    assert_eq!(Action::from_str("+3,b,+15").unwrap().get_values(), (3, 'b', 15));
    assert_eq!(Action::from_str("0,,,0"), Err(ParseError::Shape));
    assert_eq!("007,x,000".parse::<Action>(), Ok(Action::new(7, 'x', 0)));
}

#[test]
fn an_action_with_a_comma_as_id_has_too_many_fields() {
    assert_eq!(Action::from_str("1,,,2"), Err(ParseError::Shape));
}

#[test]
fn an_action_of_the_wrong_shape_is_refused() {
    assert_eq!(Action::from_str(""), Err(ParseError::Shape));
    assert_eq!(Action::from_str("1,a"), Err(ParseError::Shape));
    assert_eq!(Action::from_str("1,a,2,3"), Err(ParseError::Shape));
}

#[test]
fn an_action_names_its_first_bad_field() {
    assert_eq!(Action::from_str("x,ab,y"), Err(ParseError::Number));
    assert_eq!(Action::from_str("1,ab,y"), Err(ParseError::Id));
    assert_eq!(Action::from_str("1,,2"), Err(ParseError::Id));
    assert_eq!(Action::from_str("1,a,y"), Err(ParseError::Number));
    assert_eq!(Action::from_str("-1,a,2"), Err(ParseError::Number));
    assert_eq!(Action::from_str("1,a,-2"), Err(ParseError::Number));
    assert_eq!(Action::from_str("1,a, 2"), Err(ParseError::Number));
    assert_eq!(Action::from_str(",a,2"), Err(ParseError::Number));
    assert_eq!(Action::from_str("+,a,2"), Err(ParseError::Number));
}

#[test]
fn an_amount_ends_where_its_type_ends() {
    assert_eq!(Action::from_str("1,a,4294967295"), Ok(Action::new(1, 'a', u32::MAX)));
    assert_eq!(Action::from_str("1,a,4294967296"), Err(ParseError::Number));
    assert_eq!(
        Action::from_str("18446744073709551615,a,1"),
        Ok(Action::new(usize::MAX, 'a', 1))
    );
    assert_eq!(Action::from_str("18446744073709551616,a,1"), Err(ParseError::Number));
    assert_eq!(Action::from_str("99999999999999999999999,a,1"), Err(ParseError::Number));
}

#[test]
fn a_point_is_id_x_y_and_maybe_food() {
    assert_eq!(PointInfo::from_str("a,6,1"), Ok(PointInfo::Empty('a', 6, 1)));
    assert_eq!(PointInfo::from_str("g,10,8,15"), Ok(PointInfo::Food('g', 10, 8, 15)));
    assert_eq!(PointInfo::from_str("g,-10,+8,0"), Ok(PointInfo::Food('g', -10, 8, 0)));
    assert_eq!("é,-0,0".parse::<PointInfo>(), Ok(PointInfo::Empty('é', 0, 0)));
}

#[test]
fn a_coordinate_ends_where_its_type_ends() {
    assert_eq!(PointInfo::from_str("a,-32768,32767"), Ok(PointInfo::Empty('a', -32768, 32767)));
    assert_eq!(PointInfo::from_str("a,-32769,0"), Err(ParseError::Number));
    assert_eq!(PointInfo::from_str("a,0,32768"), Err(ParseError::Number));
}

#[test]
fn a_point_names_its_first_bad_field() {
    assert_eq!(PointInfo::from_str("a,1"), Err(ParseError::Shape));
    assert_eq!(PointInfo::from_str("a,1,2,3,4"), Err(ParseError::Shape));
    assert_eq!(PointInfo::from_str("ab,x,2"), Err(ParseError::Id));
    assert_eq!(PointInfo::from_str("a,x,y"), Err(ParseError::Number));
    assert_eq!(PointInfo::from_str("a,1,y"), Err(ParseError::Number));
    assert_eq!(PointInfo::from_str("a,1,2,-3"), Err(ParseError::Number));
    assert_eq!(PointInfo::from_str("a,1,2,"), Err(ParseError::Number));
    assert_eq!(PointInfo::from_str("a,-,2"), Err(ParseError::Number));
    assert_eq!(PointInfo::from_str("a,1.5,2"), Err(ParseError::Number));
}

#[test]
fn the_readers_agree_with_the_standard_ones() {
    for s in ["0", "+0", "-0", "12", "+12", "-12", "", "+", "-", "1a", "٣", "65535", "65536", "00065535"] {
        assert_eq!(read_unsigned(&text(s), 65535), s.parse::<u16>().ok().map(|n| n as u64), "{}", s);
        assert_eq!(
            read_signed(&text(s), 32768, 32767),
            s.parse::<i16>().ok().map(|n| n as i64),
            "{}",
            s
        );
        assert_eq!(read_single(&text(s)), s.parse::<char>().ok(), "{}", s);
    }
    for s in ["32767", "32768", "-32768", "-32769", "+32767"] {
        assert_eq!(read_signed(&text(s), 32768, 32767), s.parse::<i16>().ok().map(|n| n as i64));
    }
}

#[test]
fn a_text_is_cut_at_its_commas() {
    assert_eq!(split_fields(&text("")), vec![text("")]);
    assert_eq!(split_fields(&text("ab")), vec![text("ab")]);
    assert_eq!(split_fields(&text(",")), vec![text(""), text("")]);
    assert_eq!(split_fields(&text("a,,bc,")), vec![text("a"), text(""), text("bc"), text("")]);
    assert_eq!(chars_of("a,é"), vec!['a', ',', 'é']);
}

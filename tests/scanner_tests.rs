use regex::Regex;
use scanner::{Scanner, Step};

/// Runs one scanner operation to its answer, handing it bytes of `src` as
/// it asks for them.
fn run<T>(sc: &mut Scanner, src: &mut &[u8], mut op: impl FnMut(&mut Scanner) -> Step<T>) -> T {
    loop {
        match op(sc) {
            Step::Ready(x) => return x,
            Step::Need(n) => {
                let k = n.min(src.len());
                let (head, tail) = src.split_at(k);
                sc.supply(head);
                *src = tail;
            }
        }
    }
}

fn next(sc: &mut Scanner, src: &mut &[u8]) -> Option<String> {
    run(sc, src, |s| s.next())
}

fn next_line(sc: &mut Scanner, src: &mut &[u8]) -> Option<String> {
    run(sc, src, |s| s.next_line())
}

#[test]
fn next_works_once_when_good_input() {
    let mut string: &[u8] = b"hello";
    let mut test = Scanner::new();

    assert_eq!(next(&mut test, &mut string), Some(String::from("hello")));
}

#[test]
fn next_breaks_at_delim() {
    let mut string: &[u8] = b"hello, world";
    let mut test = Scanner::new();

    assert_eq!(next(&mut test, &mut string), Some(String::from("hello,")));
}

#[test]
fn next_skips_leading_delims() {
    let mut string: &[u8] = b"hello,  world";
    let mut test = Scanner::new();
    next(&mut test, &mut string);

    assert_eq!(next(&mut test, &mut string), Some(String::from("world")));
}

#[test]
fn next_preserves_trailing_delim() {
    let mut string: &[u8] = b"hello,  world";
    let mut test = Scanner::new();

    next(&mut test, &mut string);
    assert_eq!(next_line(&mut test, &mut string), Some(String::from("  world")));
}

#[test]
fn next_handles_line_wrap() {
    let mut string: &[u8] = b"hello\nworld";
    let mut test = Scanner::new();

    assert_eq!(next(&mut test, &mut string), Some(String::from("hello")));
}

#[test]
fn next_line_reads_whole_line() {
    let mut string: &[u8] = b"hello,  world\ngoodbye, world";
    let mut test = Scanner::new();

    assert_eq!(next_line(&mut test, &mut string), Some(String::from("hello,  world")));
}

#[test]
fn next_line_reads_last_line() {
    let mut string: &[u8] = b"foo bar baz";
    let mut test = Scanner::new();

    assert_eq!(next_line(&mut test, &mut string), Some(String::from("foo bar baz")));
}

#[test]
fn next_works_after_next_line() {
    let mut string: &[u8] = b"hello,  world\ngoodbye, world";
    let mut test = Scanner::new();
    next_line(&mut test, &mut string);

    assert_eq!(next(&mut test, &mut string), Some(String::from("goodbye,")));
}

#[test]
fn next_int_handles_commas() {
    let mut string: &[u8] = b"2,147,483,647";
    let mut test = Scanner::new();

    assert_eq!(run(&mut test, &mut string, |s| s.next_int::<i32>()), Some(2147483647));
}

#[test]
fn next_int_none_on_positive_overflow() {
    let mut string: &[u8] = b"2147483648";
    let mut test = Scanner::new();

    let res = run(&mut test, &mut string, |s| s.next_int::<i32>());
    assert_eq!(res, None);
}

#[test]
fn next_i32_none_on_negative_overflow() {
    let mut string: &[u8] = b"-2147483649";
    let mut test = Scanner::new();

    let res = run(&mut test, &mut string, |s| s.next_int::<i32>());
    assert_eq!(res, None);
}

#[test]
fn arbitrary_delim() {
    let mut string: &[u8] = b"foohello, worldfoo";
    let mut test = Scanner::new();
    test.set_delim(Regex::new(r"foo").unwrap());

    if let Some(res) = next(&mut test, &mut string) {
        assert_eq!(&res[..], "hello, world");
    } else {
        assert_eq!(true, false);
    }
}

#[test]
fn next_int_custom_radix() {
    let mut string: &[u8] = b"11010";
    let mut test = Scanner::new();

    // An invalid radix gives no value and consumes no token.
    assert_eq!(run(&mut test, &mut string, |s| s.next_int_radix::<i32>(1)), None);

    // 2 is a valid radix.
    assert_eq!(run(&mut test, &mut string, |s| s.next_int_radix::<i32>(2)), Some(26));
}

#[test]
fn str_delim_escapes_regexes() {
    let mut string: &[u8] = b"foo[a-z]+bar";
    let mut test = Scanner::new();
    test.set_delim_str("[a-z]+");

    next(&mut test, &mut string);
    assert_eq!(next(&mut test, &mut string), Some(String::from("bar")));
}

#[test]
fn radix_between_2_36() {
    let mut test = Scanner::new();

    assert_eq!(test.get_radix(), 10);
    test.set_radix(1);
    assert_eq!(test.get_radix(), 10);
    test.set_radix(37);
    assert_eq!(test.get_radix(), 10);
    test.set_radix(36);
    assert_eq!(test.get_radix(), 36);
}

#[test]
fn buffer_ends_before_delim() {
    let mut string: &[u8] = b"hello world";
    let mut test = Scanner::with_capacity(4);

    assert_eq!(next(&mut test, &mut string), Some(String::from("hello")));
}

#[test]
fn buffer_ends_within_end_delim() {
    let mut string: &[u8] = b"foo  bar";
    let mut test = Scanner::with_capacity(4);
    test.set_delim_str("  ");

    assert_eq!(next(&mut test, &mut string), Some(String::from("foo")));
}

#[test]
fn buffer_ends_within_start_delim() {
    let mut string: &[u8] = b"aaaabfoo";
    let mut test = Scanner::with_capacity(4);
    test.set_delim(Regex::new(r"a+b").unwrap());

    assert_eq!(next(&mut test, &mut string), Some(String::from("foo")));
}

#[test]
fn buffer_boundary_preserves_greed() {
    let mut string: &[u8] = b"aaabbfoo";
    let mut test = Scanner::with_capacity(4);
    test.set_delim(Regex::new(r"a[ab]*b").unwrap());

    assert_eq!(next(&mut test, &mut string), Some(String::from("foo")));
}

#[test]
fn skip_twice_consumes_as_once() {
    let mut test = Scanner::new();
    test.supply(b"  \t hello world");
    test.skip_leading_delims();
    let once = test.pending_len();
    test.skip_leading_delims();
    assert_eq!(once, 11);
    assert_eq!(test.pending_len(), once);
}

#[test]
fn delimiter_excluded_and_stream_ends() {
    let mut string: &[u8] = b"hello, world";
    let mut test = Scanner::new();

    assert_eq!(next(&mut test, &mut string), Some(String::from("hello,")));
    assert_eq!(test.pending_len(), 6);
    assert_eq!(next(&mut test, &mut string), Some(String::from("world")));
    assert_eq!(test.pending_len(), 0);
    assert_eq!(next(&mut test, &mut string), None);
    assert_eq!(next(&mut test, &mut string), None);
}

#[test]
fn next_asks_for_bytes_first() {
    let mut test = Scanner::with_capacity(16);
    assert_eq!(test.next(), Step::Need(16));
    test.supply(b"abc");
    assert_eq!(test.next(), Step::Need(13));
    test.supply(b"defghijklmnop");
    // A full buffer with no delimiter asks to stretch by its capacity.
    assert_eq!(test.next(), Step::Need(16));
    test.supply(b"");
    assert!(test.is_ended());
    assert_eq!(test.next(), Step::Ready(Some(String::from("abcdefghijklmnop"))));
    assert_eq!(test.next(), Step::Ready(None));
}

#[test]
fn delimiter_at_window_end_waits_for_more() {
    let mut test = Scanner::with_capacity(4);
    test.supply(b"ab  ");
    // The space run touches the end of what is held: it may go on.
    assert_eq!(test.next(), Step::Need(4));
    test.supply(b" cd");
    assert_eq!(test.next(), Step::Ready(Some(String::from("ab"))));
    assert_eq!(test.pending_len(), 5);
}

#[test]
fn invalid_utf8_gives_no_token_and_keeps_bytes() {
    let mut test = Scanner::new();
    test.supply(&[0x66, 0xff, 0x20, 0x67]);
    test.supply(b"");
    assert_eq!(test.next(), Step::Ready(None));
    assert_eq!(test.pending_len(), 4);
    assert_eq!(test.next_line(), Step::Ready(None));
    assert_eq!(test.pending_len(), 4);
}

#[test]
fn multibyte_text_tokens() {
    let mut string: &[u8] = "héllo wörld".as_bytes();
    let mut test = Scanner::with_capacity(3);
    assert_eq!(next(&mut test, &mut string), Some(String::from("héllo")));
    assert_eq!(next(&mut test, &mut string), Some(String::from("wörld")));
    assert_eq!(next(&mut test, &mut string), None);
}

#[test]
fn next_line_strips_one_newline() {
    let mut string: &[u8] = b"a\n\nb\n";
    let mut test = Scanner::with_capacity(2);
    assert_eq!(next_line(&mut test, &mut string), Some(String::from("a")));
    assert_eq!(next_line(&mut test, &mut string), Some(String::from("")));
    assert_eq!(next_line(&mut test, &mut string), Some(String::from("b")));
    assert_eq!(next_line(&mut test, &mut string), None);
}

#[test]
fn empty_source_gives_nothing() {
    let mut string: &[u8] = b"";
    let mut test = Scanner::new();
    assert_eq!(next(&mut test, &mut string), None);
    assert_eq!(next_line(&mut test, &mut string), None);
    let mut only_delims: &[u8] = b"   \n  ";
    let mut other = Scanner::new();
    assert_eq!(next(&mut other, &mut only_delims), None);
}

#[test]
fn radix_round_trip_keeps_persistent_radix() {
    let mut string: &[u8] = b"11010 ff";
    let mut test = Scanner::new();
    assert_eq!(run(&mut test, &mut string, |s| s.next_int_radix::<i64>(37)), None);
    assert_eq!(test.get_radix(), 10);
    assert_eq!(run(&mut test, &mut string, |s| s.next_int_radix::<i64>(2)), Some(26));
    assert_eq!(test.get_radix(), 10);
    test.set_radix(16);
    assert_eq!(run(&mut test, &mut string, |s| s.next_int::<u32>()), Some(255));
}

#[test]
fn bad_integer_token_is_still_consumed() {
    let mut string: &[u8] = b"12x 7";
    let mut test = Scanner::new();
    assert_eq!(run(&mut test, &mut string, |s| s.next_int::<i32>()), None);
    assert_eq!(run(&mut test, &mut string, |s| s.next_int::<i32>()), Some(7));
    assert_eq!(run(&mut test, &mut string, |s| s.next_int::<i32>()), None);
}

#[test]
fn delimiter_text_is_kept() {
    let mut test = Scanner::new();
    assert_eq!(test.get_delim_str(), "\\s+");
    test.set_delim_str("[a-z]+");
    assert_eq!(test.get_delim_str(), "\\[a\\-z\\]\\+");
    assert_eq!(test.get_delim().as_str(), "\\[a\\-z\\]\\+");
    let re = test.set_delim(Regex::new("x|y").unwrap());
    assert_eq!(re.as_str(), "x|y");
}

#[test]
fn empty_match_delimiter_gives_empty_token() {
    let mut string: &[u8] = b"abc";
    let mut test = Scanner::new();
    test.set_delim(Regex::new("z*").unwrap());
    assert_eq!(next(&mut test, &mut string), Some(String::from("")));
}

#[test]
fn failed_read_ends_only_the_operation() {
    let mut test = Scanner::new();
    test.supply(b"ab");
    assert_eq!(test.next(), Step::Need(8190));
    test.supply_failed();
    // The operation ends with what is held, as at the end of the source.
    assert_eq!(test.next(), Step::Ready(Some(String::from("ab"))));
    assert!(!test.is_ended());
    // The next operation asks the source again.
    assert_eq!(test.next(), Step::Need(8192));
    test.supply_failed();
    assert_eq!(test.next(), Step::Ready(None));
    assert_eq!(test.next_line(), Step::Need(8192));
    test.supply(b"cd\n");
    assert_eq!(test.next_line(), Step::Ready(Some(String::from("cd"))));
}

#[test]
fn next_int_reads_every_integer_width() {
    let mut string: &[u8] = b"-128 255 -32,768 65,535 170141183460469231731687303715884105727 340282366920938463463374607431768211455 -5 5 128";
    let mut test = Scanner::new();
    assert_eq!(run(&mut test, &mut string, |s| s.next_int::<i8>()), Some(i8::MIN));
    assert_eq!(run(&mut test, &mut string, |s| s.next_int::<u8>()), Some(u8::MAX));
    assert_eq!(run(&mut test, &mut string, |s| s.next_int::<i16>()), Some(i16::MIN));
    assert_eq!(run(&mut test, &mut string, |s| s.next_int::<u16>()), Some(u16::MAX));
    assert_eq!(run(&mut test, &mut string, |s| s.next_int::<i128>()), Some(i128::MAX));
    assert_eq!(run(&mut test, &mut string, |s| s.next_int::<u128>()), Some(u128::MAX));
    assert_eq!(run(&mut test, &mut string, |s| s.next_int::<isize>()), Some(-5));
    assert_eq!(run(&mut test, &mut string, |s| s.next_int::<usize>()), Some(5));
    assert_eq!(run(&mut test, &mut string, |s| s.next_int::<i8>()), None);
}

//! The tokenizer. It never reads a byte source itself: each operation looks
//! at the bytes it holds and either answers or asks for more, and the
//! caller hands over what the source gave with `supply`.
use vstd::prelude::*;
use vstd::utf8::*;
use vstd::string::*;
use regex::Regex;
use crate::elastic_queue::ElasticQueue;
use crate::numeric::{ScanInt, parse_int, token_int};
use crate::pattern::{
    leftmost_match,
    regex_source,
    escaped,
    find_match,
    compile,
    compiles,
    source_of,
    escape_literal,
    decode_text,
    cut_short,
};

verus! {

/// The baseline capacity of a scanner's buffer unless another is given.
pub const DEFAULT_BUF_SIZE: usize = 8192;

/// The most bytes a scanner holds while it waits for a delimiter to settle.
/// Once this many are held, a match is final even where it touches the end
/// of what is held, and a token without a delimiter ends there.
pub const WINDOW_LIMIT: usize = 1073741824;

/// The outcome of one operation: its answer, or a request for up to the
/// given number of further bytes of the source.
#[derive(Debug, PartialEq, Eq)]
pub enum Step<T> {
    Ready(T),
    Need(usize),
}

/// What the held bytes decide for a token or a line at their front.
pub enum Verdict {
    /// A token of this many bytes, ended by a delimiter or by the end of
    /// the source.
    Token(nat),
    /// The source is over and nothing is held.
    End,
    /// The bytes are not valid UTF-8, and more would not make them so.
    Undecodable,
    /// More bytes are needed to decide.
    More,
}

/// Whether no further byte can change what the held bytes decide: the
/// source is over, or the window has reached its limit.
pub open spec fn settled(w: Seq<u8>, ended: bool) -> bool {
    ended || w.len() >= WINDOW_LIMIT
}

/// A match that ends before the end of the window cannot grow with more
/// input; one that touches that end is final only once the window is
/// settled.
pub open spec fn conclusive(w: Seq<u8>, ended: bool, end: usize) -> bool {
    end < w.len() || settled(w, ended)
}

/// The number of leading bytes that are delimiters: a conclusive, non-empty
/// match at the very front is consumed, and the rest is looked at again.
pub open spec fn skip_count(re: Regex, w: Seq<u8>, ended: bool) -> nat
    decreases w.len(),
{
    if valid_utf8(w) {
        match leftmost_match(re, decode_utf8(w)) {
            Some((s, e)) => if s == 0 && 0 < e <= w.len() && conclusive(w, ended, e) {
                (e + skip_count(re, w.subrange(e as int, w.len() as int), ended)) as nat
            } else {
                0
            },
            None => 0,
        }
    } else {
        0
    }
}

/// The window left once leading delimiters are consumed.
pub open spec fn after_skip(re: Regex, w: Seq<u8>, ended: bool) -> Seq<u8> {
    w.subrange(skip_count(re, w, ended) as int, w.len() as int)
}

/// What a window without leading delimiters decides: the token runs up to
/// the start of a conclusive delimiter match, or to the end of a settled
/// window that holds none.
pub open spec fn token_verdict(re: Regex, v: Seq<u8>, ended: bool) -> Verdict {
    if v.len() == 0 && ended {
        Verdict::End
    } else if !valid_utf8(v) {
        if cut_short(v) && !settled(v, ended) {
            Verdict::More
        } else {
            Verdict::Undecodable
        }
    } else {
        match leftmost_match(re, decode_utf8(v)) {
            Some((s, e)) => if s <= e <= v.len() && conclusive(v, ended, e) {
                Verdict::Token(s as nat)
            } else {
                Verdict::More
            },
            None => if settled(v, ended) {
                Verdict::Token(v.len())
            } else {
                Verdict::More
            },
        }
    }
}

/// The index of the first newline byte, if any.
pub open spec fn is_first_newline(w: Seq<u8>, i: int) -> bool {
    0 <= i < w.len() && w[i] == 10 && forall|j: int| 0 <= j < i ==> w[j] != 10
}

/// What a window decides for a line at its front: the line runs up to the
/// first newline, which is consumed with it, or to the end of a settled
/// window; its bytes must be valid UTF-8.
pub open spec fn line_verdict(w: Seq<u8>, ended: bool) -> Verdict {
    if exists|i: int| is_first_newline(w, i) {
        let i = choose|i: int| is_first_newline(w, i);
        if valid_utf8(w.subrange(0, i)) {
            Verdict::Token(i as nat)
        } else {
            Verdict::Undecodable
        }
    } else if !settled(w, ended) {
        Verdict::More
    } else if w.len() == 0 {
        Verdict::End
    } else if valid_utf8(w) {
        Verdict::Token(w.len())
    } else {
        Verdict::Undecodable
    }
}

/// How many bytes to ask for: enough to fill the buffer to its baseline
/// capacity, or, when it already holds that much, one more baseline's worth,
/// which stretches it.
pub open spec fn demand(cap: nat, held: nat) -> nat {
    if held < cap {
        (cap - held) as nat
    } else if cap == 0 {
        1
    } else {
        cap
    }
}

/// Whether a radix is one that numbers can be read in.
pub open spec fn valid_radix(radix: u32) -> bool {
    2 <= radix <= 36
}

/// A tokenizer over a byte source that its caller reads: the bytes held and
/// not yet consumed, the delimiter pattern, the radix for numbers, whether
/// the source has reported its end, and whether a read failed during the
/// operation under way.
pub struct Scanner {
    buf: ElasticQueue<u8>,
    delim: Regex,
    radix: u32,
    ended: bool,
    stalled: bool,
}

impl Scanner {
    /// The buffer is well formed and the radix is one numbers can be read in.
    pub closed spec fn wf(&self) -> bool {
        self.buf.wf() && valid_radix(self.radix)
    }

    /// The bytes held and not yet consumed.
    pub closed spec fn pending(&self) -> Seq<u8> {
        self.buf@
    }

    pub closed spec fn spec_delim(&self) -> Regex {
        self.delim
    }

    pub closed spec fn spec_radix(&self) -> u32 {
        self.radix
    }

    pub closed spec fn spec_ended(&self) -> bool {
        self.ended
    }

    pub closed spec fn spec_capacity(&self) -> nat {
        self.buf.spec_capacity()
    }

    /// A read failed during the operation under way.
    pub closed spec fn spec_stalled(&self) -> bool {
        self.stalled
    }

    /// No more bytes come for the operation under way: the source is over,
    /// or a read failed.
    pub open spec fn exhausted(&self) -> bool {
        self.spec_ended() || self.spec_stalled()
    }

    /// Whether two states differ at most in the bytes they hold.
    pub open spec fn same_setup(&self, other: &Scanner) -> bool {
        &&& self.spec_delim() == other.spec_delim()
        &&& self.spec_radix() == other.spec_radix()
        &&& self.spec_ended() == other.spec_ended()
        &&& self.spec_capacity() == other.spec_capacity()
    }

    /// A scanner with an 8 KiB buffer that splits at runs of whitespace and
    /// reads numbers in radix 10.
    pub fn new() -> (r: Scanner)
        ensures
            r.wf(),
            r.pending() == Seq::<u8>::empty(),
            regex_source(r.spec_delim()) == "\\s+"@,
            r.spec_radix() == 10,
            !r.spec_ended(),
            !r.spec_stalled(),
            r.spec_capacity() == DEFAULT_BUF_SIZE,
    {
        Self::with_capacity(DEFAULT_BUF_SIZE)
    }

    /// As `new`, with a buffer of the given baseline capacity.
    pub fn with_capacity(size: usize) -> (r: Scanner)
        ensures
            r.wf(),
            r.pending() == Seq::<u8>::empty(),
            regex_source(r.spec_delim()) == "\\s+"@,
            r.spec_radix() == 10,
            !r.spec_ended(),
            !r.spec_stalled(),
            r.spec_capacity() == size,
    {
        let delim = compile("\\s+").unwrap();
        Scanner {
            buf: ElasticQueue::with_capacity(size),
            delim,
            radix: 10,
            ended: false,
            stalled: false,
        }
    }

    /// Hands over bytes that the source gave. An empty slice reports the
    /// end of the source, for good.
    pub fn supply(&mut self, bytes: &[u8])
        requires
            old(self).wf(),
        ensures
            final(self).wf(),
            final(self).spec_delim() == old(self).spec_delim(),
            final(self).spec_radix() == old(self).spec_radix(),
            final(self).spec_capacity() == old(self).spec_capacity(),
            bytes@.len() == 0 ==> final(self).spec_ended() && final(self).pending() == old(self).pending()
                && final(self).spec_stalled() == old(self).spec_stalled(),
            bytes@.len() > 0 ==> final(self).spec_ended() == old(self).spec_ended()
                && final(self).pending() == old(self).pending() + bytes@
                && !final(self).spec_stalled(),
    {
        if bytes.len() == 0 {
            self.ended = true;
        } else {
            self.buf.extend(bytes);
            self.stalled = false;
        }
    }

    /// Reports that a read of the source failed. The operation under way
    /// ends with what is held, as at the end of the source; the next
    /// operation, or bytes handed over, ask the source again.
    pub fn supply_failed(&mut self)
        requires
            old(self).wf(),
        ensures
            final(self).wf(),
            final(self).same_setup(old(self)),
            final(self).pending() == old(self).pending(),
            final(self).spec_stalled(),
    {
        self.stalled = true;
    }

    /// Whether the source has reported its end.
    pub fn is_ended(&self) -> (r: bool)
        ensures
            r == self.spec_ended(),
    {
        self.ended
    }

    /// How many bytes are held and not yet consumed.
    pub fn pending_len(&self) -> (r: usize)
        requires
            self.wf(),
        ensures
            r == self.pending().len(),
    {
        self.buf.len()
    }

    fn need(&self, held: usize) -> (r: usize)
        ensures
            r == demand(self.spec_capacity(), held as nat),
    {
        let cap = self.buf.capacity();
        if held < cap {
            cap - held
        } else if cap == 0 {
            1
        } else {
            cap
        }
    }

    /// Consumes the delimiters at the front of the held bytes, as far as
    /// they are known to be delimiters.
    pub fn skip_leading_delims(&mut self)
        requires
            old(self).wf(),
        ensures
            final(self).wf(),
            final(self).same_setup(old(self)),
            final(self).spec_stalled() == old(self).spec_stalled(),
            final(self).pending() == after_skip(
                old(self).spec_delim(),
                old(self).pending(),
                old(self).exhausted(),
            ),
    {
        let ghost w0 = self.buf@;
        loop
            invariant
                self.wf(),
                self.same_setup(old(self)),
                self.stalled == old(self).stalled,
                w0 == old(self).pending(),
                self.buf@.len() <= w0.len(),
                self.buf@ == w0.subrange(w0.len() - self.buf@.len(), w0.len() as int),
                skip_count(self.delim, w0, self.ended || self.stalled) == (w0.len()
                    - self.buf@.len()) + skip_count(self.delim, self.buf@, self.ended || self.stalled),
            decreases self.buf@.len(),
        {
            let w = self.buf.as_slice();
            let len = w.len();
            let text = match decode_text(w) {
                Ok(t) => t,
                Err(_) => {
                    return;
                },
            };
            proof {
                encode_utf8_decode_utf8(text@);
            }
            let settled = self.ended || self.stalled || len >= WINDOW_LIMIT;
            match find_match(&self.delim, text) {
                Some((s, e)) => {
                    if s == 0 && e > 0 && (e < len || settled) {
                        self.buf.consume(e);
                        assert(self.buf@ =~= w0.subrange(
                            w0.len() - self.buf@.len(),
                            w0.len() as int,
                        ));
                    } else {
                        return;
                    }
                },
                None => {
                    return;
                },
            }
        }
    }

    /// The next token: the text up to, not including, the next delimiter,
    /// after the delimiters at the front are consumed. The delimiter that
    /// ends it stays held. `Ready(None)` where the source is over and
    /// nothing is left, or where the held bytes are not valid UTF-8 (bytes
    /// that end in the middle of a character wait for more instead); then
    /// nothing but leading delimiters is consumed.
    pub fn next(&mut self) -> (r: Step<Option<String>>)
        requires
            old(self).wf(),
        ensures
            final(self).wf(),
            final(self).same_setup(old(self)),
            !final(self).spec_stalled(),
            ({
                let v = after_skip(old(self).spec_delim(), old(self).pending(), old(self).exhausted());
                match token_verdict(old(self).spec_delim(), v, old(self).exhausted()) {
                    Verdict::Token(n) => r matches Step::Ready(Some(t)) && n <= v.len()
                        && encode_utf8(t@) == v.subrange(0, n as int) && final(self).pending()
                        == v.subrange(n as int, v.len() as int),
                    Verdict::More => r == Step::<Option<String>>::Need(
                        demand(old(self).spec_capacity(), v.len()) as usize,
                    ) && final(self).pending() == v,
                    _ => r == Step::<Option<String>>::Ready(None) && final(self).pending() == v,
                }
            }),
    {
        let r = self.next_token();
        self.stalled = false;
        r
    }

    /// The work of `next`, leaving the failed-read mark as it is.
    fn next_token(&mut self) -> (r: Step<Option<String>>)
        requires
            old(self).wf(),
        ensures
            final(self).wf(),
            final(self).same_setup(old(self)),
            final(self).spec_stalled() == old(self).spec_stalled(),
            ({
                let v = after_skip(old(self).spec_delim(), old(self).pending(), old(self).exhausted());
                match token_verdict(old(self).spec_delim(), v, old(self).exhausted()) {
                    Verdict::Token(n) => r matches Step::Ready(Some(t)) && n <= v.len()
                        && encode_utf8(t@) == v.subrange(0, n as int) && final(self).pending()
                        == v.subrange(n as int, v.len() as int),
                    Verdict::More => r == Step::<Option<String>>::Need(
                        demand(old(self).spec_capacity(), v.len()) as usize,
                    ) && final(self).pending() == v,
                    _ => r == Step::<Option<String>>::Ready(None) && final(self).pending() == v,
                }
            }),
    {
        self.skip_leading_delims();
        let w = self.buf.as_slice();
        let len = w.len();
        let exhausted = self.ended || self.stalled;
        if len == 0 && exhausted {
            return Step::Ready(None);
        }
        let settled = exhausted || len >= WINDOW_LIMIT;
        let text = match decode_text(w) {
            Ok(t) => t,
            Err(short) => {
                if short && !settled {
                    return Step::Need(self.need(len));
                }
                return Step::Ready(None);
            },
        };
        proof {
            encode_utf8_decode_utf8(text@);
            is_char_boundary_start_end_of_seq(text.spec_bytes());
        }
        let cut: usize = match find_match(&self.delim, text) {
            Some((s, e)) => {
                if e < len || settled {
                    s
                } else {
                    return Step::Need(self.need(len));
                }
            },
            None => {
                if settled {
                    len
                } else {
                    return Step::Need(self.need(len));
                }
            },
        };
        let (head, _) = text.split_at(cut);
        let token = head.to_owned();
        self.buf.consume(cut);
        Step::Ready(Some(token))
    }

    /// The next line: the text up to the next newline, which is consumed
    /// but not returned, or up to the end of the source. Delimiters play no
    /// part. `Ready(None)` where the source is over and nothing is left, or
    /// where the line is not valid UTF-8; then nothing is consumed.
    pub fn next_line(&mut self) -> (r: Step<Option<String>>)
        requires
            old(self).wf(),
        ensures
            final(self).wf(),
            final(self).same_setup(old(self)),
            !final(self).spec_stalled(),
            ({
                let w = old(self).pending();
                match line_verdict(w, old(self).exhausted()) {
                    Verdict::Token(n) => r matches Step::Ready(Some(t)) && n <= w.len()
                        && encode_utf8(t@) == w.subrange(0, n as int) && final(self).pending()
                        == w.subrange(if n < w.len() { n + 1 as int } else { n as int }, w.len() as int),
                    Verdict::More => r == Step::<Option<String>>::Need(
                        demand(old(self).spec_capacity(), w.len()) as usize,
                    ) && final(self).pending() == w,
                    _ => r == Step::<Option<String>>::Ready(None) && final(self).pending() == w,
                }
            }),
    {
        let r = self.line();
        self.stalled = false;
        r
    }

    /// The work of `next_line`, leaving the failed-read mark as it is.
    fn line(&mut self) -> (r: Step<Option<String>>)
        requires
            old(self).wf(),
        ensures
            final(self).wf(),
            final(self).same_setup(old(self)),
            final(self).spec_stalled() == old(self).spec_stalled(),
            ({
                let w = old(self).pending();
                match line_verdict(w, old(self).exhausted()) {
                    Verdict::Token(n) => r matches Step::Ready(Some(t)) && n <= w.len()
                        && encode_utf8(t@) == w.subrange(0, n as int) && final(self).pending()
                        == w.subrange(if n < w.len() { n + 1 as int } else { n as int }, w.len() as int),
                    Verdict::More => r == Step::<Option<String>>::Need(
                        demand(old(self).spec_capacity(), w.len()) as usize,
                    ) && final(self).pending() == w,
                    _ => r == Step::<Option<String>>::Ready(None) && final(self).pending() == w,
                }
            }),
    {
        let w = self.buf.as_slice();
        let len = w.len();
        let mut i: usize = 0;
        while i < len && w[i] != 10
            invariant
                0 <= i <= len,
                len == w@.len(),
                forall|j: int| 0 <= j < i ==> w@[j] != 10,
            decreases len - i,
        {
            i = i + 1;
        }
        if i < len {
            proof {
                assert(is_first_newline(w@, i as int));
                assert forall|k: int| is_first_newline(w@, k) implies k == i by {
                    if k < i {
                        assert(w@[k] != 10);
                    }
                    if k > i {
                        assert(w@[i as int] == 10);
                    }
                }
            }
            let head = &w[0..i];
            match decode_text(head) {
                Ok(t) => {
                    let line = t.to_owned();
                    self.buf.consume(i + 1);
                    Step::Ready(Some(line))
                },
                Err(_) => Step::Ready(None),
            }
        } else {
            if !(self.ended || self.stalled || len >= WINDOW_LIMIT) {
                return Step::Need(self.need(len));
            }
            if len == 0 {
                return Step::Ready(None);
            }
            match decode_text(w) {
                Ok(t) => {
                    let line = t.to_owned();
                    self.buf.consume(len);
                    assert(w@.subrange(0, len as int) =~= w@);
                    Step::Ready(Some(line))
                },
                Err(_) => Step::Ready(None),
            }
        }
    }

    /// Reads the next token as an integer in the radix; the token is
    /// consumed even where it is not one.
    fn read_int<T: ScanInt>(&mut self, radix: u32) -> (r: Step<Option<T>>)
        requires
            old(self).wf(),
            valid_radix(radix),
        ensures
            final(self).wf(),
            final(self).same_setup(old(self)),
            !final(self).spec_stalled(),
            int_step(r, old(self), final(self), radix),
    {
        match self.next() {
            Step::Ready(Some(token)) => {
                proof {
                    encode_utf8_decode_utf8(token@);
                }
                Step::Ready(parse_int(token.as_str(), radix))
            },
            Step::Ready(None) => Step::Ready(None),
            Step::Need(n) => Step::Need(n),
        }
    }

    /// The next token read as an integer in the scanner's radix, with every
    /// `,` in it ignored. The token is consumed even where it is not an
    /// integer of the type, which gives `Ready(None)`.
    pub fn next_int<T: ScanInt>(&mut self) -> (r: Step<Option<T>>)
        requires
            old(self).wf(),
        ensures
            final(self).wf(),
            final(self).same_setup(old(self)),
            !final(self).spec_stalled(),
            int_step(r, old(self), final(self), old(self).spec_radix()),
    {
        let radix = self.radix;
        self.read_int(radix)
    }

    /// As `next_int`, in the given radix for this one token; the scanner's
    /// own radix stays as it is. A radix outside 2 to 36 gives `Ready(None)`
    /// and consumes nothing.
    pub fn next_int_radix<T: ScanInt>(&mut self, radix: u32) -> (r: Step<Option<T>>)
        requires
            old(self).wf(),
        ensures
            final(self).wf(),
            final(self).same_setup(old(self)),
            !final(self).spec_stalled(),
            !valid_radix(radix) ==> r == Step::<Option<T>>::Ready(None) && final(self).pending()
                == old(self).pending(),
            valid_radix(radix) ==> int_step(r, old(self), final(self), radix),
    {
        if radix < 2 || radix > 36 {
            self.stalled = false;
            Step::Ready(None)
        } else {
            self.read_int(radix)
        }
    }

    /// Replaces the delimiter pattern; the bytes held stay as they are.
    pub fn set_delim(&mut self, delim: Regex) -> (r: &Regex)
        requires
            old(self).wf(),
        ensures
            final(self).wf(),
            final(self).spec_delim() == delim,
            *r == delim,
            final(self).pending() == old(self).pending(),
            final(self).spec_radix() == old(self).spec_radix(),
            final(self).spec_ended() == old(self).spec_ended(),
            final(self).spec_stalled() == old(self).spec_stalled(),
            final(self).spec_capacity() == old(self).spec_capacity(),
    {
        self.delim = delim;
        &self.delim
    }

    /// Makes the delimiter the literal text: its meta characters are
    /// escaped, so that it matches exactly that text. Where the engine
    /// refuses the escaped pattern (it outgrows the size limits), the
    /// delimiter stays as it was.
    pub fn set_delim_str(&mut self, delim: &str) -> (r: &Regex)
        requires
            old(self).wf(),
        ensures
            final(self).wf(),
            *r == final(self).spec_delim(),
            compiles(escaped(delim@)) ==> regex_source(final(self).spec_delim()) == escaped(delim@),
            !compiles(escaped(delim@)) ==> final(self).spec_delim() == old(self).spec_delim(),
            final(self).pending() == old(self).pending(),
            final(self).spec_radix() == old(self).spec_radix(),
            final(self).spec_ended() == old(self).spec_ended(),
            final(self).spec_stalled() == old(self).spec_stalled(),
            final(self).spec_capacity() == old(self).spec_capacity(),
    {
        let pattern = escape_literal(delim);
        match compile(pattern.as_str()) {
            Some(re) => {
                self.delim = re;
            },
            None => {},
        }
        &self.delim
    }

    /// The delimiter pattern.
    pub fn get_delim(&self) -> (r: &Regex)
        ensures
            *r == self.spec_delim(),
    {
        &self.delim
    }

    /// The text of the delimiter pattern.
    pub fn get_delim_str(&self) -> (r: &str)
        ensures
            r@ == regex_source(self.spec_delim()),
    {
        source_of(&self.delim)
    }

    /// Sets the radix for numbers where it lies in 2 to 36, and keeps the
    /// one before otherwise. Returns the radix now in force.
    pub fn set_radix(&mut self, radix: u32) -> (r: u32)
        requires
            old(self).wf(),
        ensures
            final(self).wf(),
            final(self).spec_radix() == (if valid_radix(radix) {
                radix
            } else {
                old(self).spec_radix()
            }),
            r == final(self).spec_radix(),
            final(self).spec_delim() == old(self).spec_delim(),
            final(self).pending() == old(self).pending(),
            final(self).spec_ended() == old(self).spec_ended(),
            final(self).spec_stalled() == old(self).spec_stalled(),
            final(self).spec_capacity() == old(self).spec_capacity(),
    {
        if 1 < radix && radix <= 36 {
            self.radix = radix;
        }
        self.radix
    }

    /// The radix in which numbers are read.
    pub fn get_radix(&self) -> (r: u32)
        ensures
            r == self.spec_radix(),
    {
        self.radix
    }
}

/// What reading an integer does: as `next`, with the token's text read as
/// an integer of `T` in the radix once its commas are left out.
pub open spec fn int_step<T: ScanInt>(r: Step<Option<T>>, before: &Scanner, after: &Scanner, radix: u32) -> bool {
    let v = after_skip(before.spec_delim(), before.pending(), before.exhausted());
    match token_verdict(before.spec_delim(), v, before.exhausted()) {
        Verdict::Token(n) => n <= v.len() && after.pending() == v.subrange(n as int, v.len() as int)
            && match r {
            Step::Ready(Some(x)) => token_int::<T>(decode_utf8(v.subrange(0, n as int)), radix as nat)
                == Some(x.int_value()),
            Step::Ready(None) => token_int::<T>(decode_utf8(v.subrange(0, n as int)), radix as nat) is None,
            Step::Need(_) => false,
        },
        Verdict::More => r == Step::<Option<T>>::Need(demand(before.spec_capacity(), v.len()) as usize)
            && after.pending() == v,
        _ => r == Step::<Option<T>>::Ready(None) && after.pending() == v,
    }
}

/// Leading delimiters never run past the window.
proof fn lemma_skip_bound(re: Regex, w: Seq<u8>, ended: bool)
    ensures
        skip_count(re, w, ended) <= w.len(),
    decreases w.len(),
{
    if skip_count(re, w, ended) > 0 {
        let (s, e) = leftmost_match(re, decode_utf8(w))->0;
        lemma_skip_bound(re, w.subrange(e as int, w.len() as int), ended);
    }
}

/// Skipping leading delimiters twice consumes what skipping once does: the
/// window left by one skip starts with no delimiter that a second would take.
pub proof fn lemma_skip_idempotent(re: Regex, w: Seq<u8>, ended: bool)
    ensures
        skip_count(re, after_skip(re, w, ended), ended) == 0,
        after_skip(re, after_skip(re, w, ended), ended) == after_skip(re, w, ended),
    decreases w.len(),
{
    let k = skip_count(re, w, ended);
    if k > 0 {
        let (s, e) = leftmost_match(re, decode_utf8(w))->0;
        let rest = w.subrange(e as int, w.len() as int);
        assert(0 < e <= w.len());
        assert(k == e + skip_count(re, rest, ended));
        lemma_skip_bound(re, rest, ended);
        lemma_skip_idempotent(re, rest, ended);
        assert(after_skip(re, w, ended) =~= after_skip(re, rest, ended));
    } else {
        assert(after_skip(re, w, ended) =~= w);
    }
    let v = after_skip(re, w, ended);
    assert(v.subrange(0, v.len() as int) =~= v);
}

} // verus!

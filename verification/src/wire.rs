//! Line framing: every wire message travels as one line of text, the
//! message's JSON text followed by a newline. A received line is trimmed of
//! surrounding white space before it is decoded.
use vstd::prelude::*;
use vstd::string::*;

verus! {

/// Unicode's `White_Space` property, the white space that `str::trim` removes.
pub open spec fn is_white_space(c: char) -> bool {
    let u = c as u32;
    ||| 0x09 <= u <= 0x0d
    ||| u == 0x20
    ||| u == 0x85
    ||| u == 0xa0
    ||| u == 0x1680
    ||| 0x2000 <= u <= 0x200a
    ||| u == 0x2028
    ||| u == 0x2029
    ||| u == 0x202f
    ||| u == 0x205f
    ||| u == 0x3000
}

/// The text without its leading white space.
pub open spec fn trim_start(s: Seq<char>) -> Seq<char>
    decreases s.len(),
{
    if s.len() > 0 && is_white_space(s[0]) {
        trim_start(s.drop_first())
    } else {
        s
    }
}

/// The text without its trailing white space.
pub open spec fn trim_end(s: Seq<char>) -> Seq<char>
    decreases s.len(),
{
    if s.len() > 0 && is_white_space(s.last()) {
        trim_end(s.drop_last())
    } else {
        s
    }
}

/// The text without its leading and trailing white space.
pub open spec fn trim(s: Seq<char>) -> Seq<char> {
    trim_end(trim_start(s))
}

/// Text whose first and last characters are not white space: what a JSON
/// encoder writes for one value.
pub open spec fn is_trimmed(s: Seq<char>) -> bool {
    s.len() > 0 && !is_white_space(s[0]) && !is_white_space(s.last())
}

/// The line that carries `body`.
pub open spec fn framed(body: Seq<char>) -> Seq<char> {
    body.push('\n')
}

/// Whether `c` is white space.
pub fn is_white_space_char(c: char) -> (b: bool)
    ensures
        b == is_white_space(c),
{
    let u = c as u32;
    (0x09 <= u && u <= 0x0d) || u == 0x20 || u == 0x85 || u == 0xa0 || u == 0x1680 || (0x2000
        <= u && u <= 0x200a) || u == 0x2028 || u == 0x2029 || u == 0x202f || u == 0x205f || u
        == 0x3000
}

/// The line removed of its leading and trailing white space.
pub fn trim_line(line: &str) -> (r: &str)
    ensures
        r@ == trim(line@),
{
    let n = line.unicode_len();
    let mut i: usize = 0;
    assert(line@.subrange(0, n as int) =~= line@);
    while i < n && is_white_space_char(line.get_char(i))
        invariant
            n == line@.len(),
            i <= n,
            trim_start(line@) == trim_start(line@.subrange(i as int, n as int)),
        decreases n - i,
    {
        assert(line@.subrange(i as int, n as int).drop_first() =~= line@.subrange(
            i + 1,
            n as int,
        ));
        i = i + 1;
    }
    let ghost rest = line@.subrange(i as int, n as int);
    assert(trim_start(line@) == rest) by {
        if i < n {
            assert(rest[0] == line@[i as int]);
        } else {
            assert(rest.len() == 0);
        }
    }
    let mut j: usize = n;
    while j > i && is_white_space_char(line.get_char(j - 1))
        invariant
            n == line@.len(),
            i <= j <= n,
            trim_end(rest) == trim_end(line@.subrange(i as int, j as int)),
        decreases j,
    {
        assert(line@.subrange(i as int, j as int).drop_last() =~= line@.subrange(
            i as int,
            j - 1,
        ));
        j = j - 1;
    }
    assert(trim_end(line@.subrange(i as int, j as int)) == line@.subrange(i as int, j as int))
        by {
        let t = line@.subrange(i as int, j as int);
        if j > i {
            assert(t.last() == line@[j - 1]);
        } else {
            assert(t.len() == 0);
        }
    }
    line.substring_char(i, j)
}

/// The line that carries one message: its text and a newline.
pub fn frame_line(body: &str) -> (line: String)
    ensures
        line@ == framed(body@),
{
    let mut line = String::from_str(body);
    let newline = "\n";
    proof {
        reveal_strlit("\n");
    }
    line.append(newline);
    assert(line@ =~= framed(body@));
    line
}

/// What a read of one line yields: nothing when no byte was read (the
/// connection is closed), else the line's text without the surrounding white
/// space.
pub fn line_body(bytes_read: usize, line: &str) -> (r: Option<&str>)
    ensures
        bytes_read == 0 ==> r is None,
        bytes_read != 0 ==> (r matches Some(b) && b@ == trim(line@)),
{
    if bytes_read == 0 {
        None
    } else {
        Some(trim_line(line))
    }
}

/// Trimming text that is already trimmed leaves it unchanged.
pub proof fn lemma_trim_of_trimmed(s: Seq<char>)
    requires
        is_trimmed(s),
    ensures
        trim(s) == s,
{
}

/// Framing round trip: a message whose text has no surrounding white space
/// (as every JSON encoding of a value) is read back, after framing, as exactly
/// that text.
pub proof fn lemma_frame_round_trip(body: Seq<char>)
    requires
        is_trimmed(body),
    ensures
        trim(framed(body)) == body,
{
    let f = framed(body);
    assert(!is_white_space(f[0]));
    assert(trim_start(f) == f);
    assert(f.last() == '\n');
    assert(is_white_space('\n'));
    assert(f.drop_last() =~= body);
    assert(trim_end(f) == trim_end(body));
}

} // verus!

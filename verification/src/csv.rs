//! CSV rendering of segment lists.
//!
//! One record per segment: `start,end,"label"`, one per line. Offsets are
//! printed as plain decimal seconds (the millisecond values divided by
//! 1000, fractional part trimmed of trailing zeros); the label is wrapped in
//! double quotes with embedded quotes doubled. A parser for the quoted field
//! is provided, and quoting round-trips through it exactly.

use vstd::prelude::*;
use vstd::string::StringExecFns;
use vstd::string::StrSliceExecFns;

use crate::data::SongCoreDataCache;
use crate::data::SongCoreDataElement;
use crate::data::SongInfoDat;
use crate::label::spec_song_info_str;
use crate::segments::ClipSegment;

verus! {

/// The character for one decimal digit.
pub open spec fn spec_digit_char(d: int) -> char {
    if d == 0 {
        '0'
    } else if d == 1 {
        '1'
    } else if d == 2 {
        '2'
    } else if d == 3 {
        '3'
    } else if d == 4 {
        '4'
    } else if d == 5 {
        '5'
    } else if d == 6 {
        '6'
    } else if d == 7 {
        '7'
    } else if d == 8 {
        '8'
    } else {
        '9'
    }
}

/// Decimal digits of `n`, most significant first, no leading zeros (except
/// for `n == 0` itself).
pub open spec fn spec_dec_digits(n: nat) -> Seq<char>
    decreases n,
{
    if n < 10 {
        seq![spec_digit_char(n as int)]
    } else {
        spec_dec_digits(n / 10).push(spec_digit_char((n % 10) as int))
    }
}

/// The fractional digits for a millisecond remainder `1 <= r <= 999`,
/// trailing zeros trimmed.
pub open spec fn spec_frac_digits(r: nat) -> Seq<char> {
    let h = (r / 100) as int;
    let t = ((r / 10) % 10) as int;
    let u = (r % 10) as int;
    if u != 0 {
        seq![spec_digit_char(h), spec_digit_char(t), spec_digit_char(u)]
    } else if t != 0 {
        seq![spec_digit_char(h), spec_digit_char(t)]
    } else {
        seq![spec_digit_char(h)]
    }
}

/// A millisecond count rendered as decimal seconds: optional minus sign,
/// integer seconds, and — only when the value is not whole — a dot and the
/// fraction with trailing zeros trimmed.
pub open spec fn spec_ms_decimal(ms: int) -> Seq<char> {
    let n = (if ms >= 0 {
        ms
    } else {
        -ms
    }) as nat;
    let sign: Seq<char> = if ms < 0 {
        seq!['-']
    } else {
        Seq::empty()
    };
    sign + spec_dec_digits(n / 1000) + (if n % 1000 == 0 {
        Seq::<char>::empty()
    } else {
        seq!['.'] + spec_frac_digits(n % 1000)
    })
}

/// A label escaped for CSV: wrapped in double quotes, embedded double quotes
/// doubled.
pub open spec fn spec_escape_quotes(s: Seq<char>) -> Seq<char>
    decreases s.len(),
{
    if s.len() == 0 {
        Seq::empty()
    } else {
        (if s[0] == '"' {
            seq!['"', '"']
        } else {
            seq![s[0]]
        }) + spec_escape_quotes(s.drop_first())
    }
}

/// The whole quoted CSV field for a label.
pub open spec fn spec_quoted_label(s: Seq<char>) -> Seq<char> {
    seq!['"'] + spec_escape_quotes(s) + seq!['"']
}

/// Undoes quote doubling; `None` when a quote stands alone.
pub open spec fn spec_unescape_quotes(s: Seq<char>) -> Option<Seq<char>>
    decreases s.len(),
{
    if s.len() == 0 {
        Some(Seq::empty())
    } else if s[0] == '"' {
        if s.len() >= 2 && s[1] == '"' {
            match spec_unescape_quotes(s.skip(2)) {
                Some(t) => Some(seq!['"'] + t),
                None => None,
            }
        } else {
            None
        }
    } else {
        match spec_unescape_quotes(s.drop_first()) {
            Some(t) => Some(seq![s[0]] + t),
            None => None,
        }
    }
}

/// The label a quoted CSV field holds: the field must begin and end with a
/// double quote and every embedded quote must be doubled.
pub open spec fn spec_parse_quoted(field: Seq<char>) -> Option<Seq<char>> {
    if field.len() >= 2 && field[0] == '"' && field.last() == '"' {
        spec_unescape_quotes(field.subrange(1, field.len() - 1))
    } else {
        None
    }
}

/// Escaping never loses information: undoing the quote doubling recovers
/// the label exactly.
proof fn lemma_unescape_escape(s: Seq<char>)
    ensures
        spec_unescape_quotes(spec_escape_quotes(s)) == Some(s),
    decreases s.len(),
{
    if s.len() > 0 {
        lemma_unescape_escape(s.drop_first());
        let e = spec_escape_quotes(s);
        if s[0] == '"' {
            assert(e.skip(2) =~= spec_escape_quotes(s.drop_first()));
            assert(seq!['"'] + s.drop_first() =~= s);
        } else {
            assert(e.drop_first() =~= spec_escape_quotes(s.drop_first()));
            assert(seq![s[0]] + s.drop_first() =~= s);
        }
    }
}

/// CSV round trip: a label formatted as a quoted field — embedded quotes
/// doubled — parses back to exactly the original label.
pub proof fn lemma_csv_round_trip(s: Seq<char>)
    ensures
        spec_parse_quoted(spec_quoted_label(s)) == Some(s),
{
    let q = spec_quoted_label(s);
    assert(q[0] == '"');
    assert(q.last() == '"');
    assert(q.subrange(1, q.len() - 1) =~= spec_escape_quotes(s));
    lemma_unescape_escape(s);
}

/// Relies on std's `String::push`: appends exactly the one character.
#[verifier::external_body]
fn push_char(s: &mut String, c: char)
    ensures
        final(s)@ == old(s)@ + seq![c],
{
    s.push(c);
}

/// Appends one decimal digit.
fn push_digit(out: &mut String, d: u64)
    requires
        d < 10,
    ensures
        final(out)@ == old(out)@ + seq![spec_digit_char(d as int)],
{
    match d {
        0 => out.append("0"),
        1 => out.append("1"),
        2 => out.append("2"),
        3 => out.append("3"),
        4 => out.append("4"),
        5 => out.append("5"),
        6 => out.append("6"),
        7 => out.append("7"),
        8 => out.append("8"),
        _ => out.append("9"),
    }
    proof {
        reveal_strlit("0");
        reveal_strlit("1");
        reveal_strlit("2");
        reveal_strlit("3");
        reveal_strlit("4");
        reveal_strlit("5");
        reveal_strlit("6");
        reveal_strlit("7");
        reveal_strlit("8");
        reveal_strlit("9");
        assert(final(out)@ =~= old(out)@ + seq![spec_digit_char(d as int)]);
    }
}

/// Appends the decimal digits of `n`.
fn push_u64_decimal(out: &mut String, n: u64)
    ensures
        final(out)@ == old(out)@ + spec_dec_digits(n as nat),
    decreases n,
{
    if n >= 10 {
        push_u64_decimal(out, n / 10);
        push_digit(out, n % 10);
        proof {
            assert(final(out)@ =~= old(out)@ + spec_dec_digits(n as nat));
        }
    } else {
        push_digit(out, n);
    }
}

/// Renders a millisecond count as decimal seconds: an optional minus sign,
/// the whole seconds, and — for non-whole values only — a dot and up to
/// three fractional digits with trailing zeros trimmed.
pub fn ms_to_decimal(ms: i64) -> (r: String)
    ensures
        r@ == spec_ms_decimal(ms as int),
{
    let mut out = String::new();
    let mag: u64 = if ms >= 0 {
        ms as u64
    } else {
        let wide: i128 = ms as i128;
        (-wide) as u64
    };
    if ms < 0 {
        out.append("-");
        proof {
            reveal_strlit("-");
        }
    }
    push_u64_decimal(&mut out, mag / 1000);
    let r = mag % 1000;
    if r != 0 {
        out.append(".");
        proof {
            reveal_strlit(".");
        }
        let h = r / 100;
        let t = (r / 10) % 10;
        let u = r % 10;
        push_digit(&mut out, h);
        if u != 0 {
            push_digit(&mut out, t);
            push_digit(&mut out, u);
        } else if t != 0 {
            push_digit(&mut out, t);
        }
    }
    proof {
        assert(out@ =~= spec_ms_decimal(ms as int));
    }
    out
}

/// Quotes a label for CSV, doubling embedded double quotes.
pub fn quote_label(label: &str) -> (r: String)
    ensures
        r@ == spec_quoted_label(label@),
{
    let n = label.unicode_len();
    let mut out = String::new();
    push_char(&mut out, '"');
    let mut i: usize = 0;
    while i < n
        invariant
            0 <= i <= n,
            n == label@.len(),
            out@ == seq!['"'] + spec_escape_quotes(label@.take(i as int)),
        decreases n - i,
    {
        let c = label.get_char(i);
        if c == '"' {
            push_char(&mut out, '"');
            push_char(&mut out, '"');
        } else {
            push_char(&mut out, c);
        }
        proof {
            lemma_escape_push(label@.take(i as int), label@[i as int]);
            assert(label@.take(i as int).push(label@[i as int]) =~= label@.take(i + 1));
            assert(out@ =~= seq!['"'] + spec_escape_quotes(label@.take(i + 1)));
        }
        i += 1;
    }
    push_char(&mut out, '"');
    proof {
        assert(label@.take(n as int) =~= label@);
        assert(out@ =~= spec_quoted_label(label@));
    }
    out
}

/// Escaping one more character appends that character's escape.
proof fn lemma_escape_push(s: Seq<char>, c: char)
    ensures
        spec_escape_quotes(s.push(c)) == spec_escape_quotes(s) + (if c == '"' {
            seq!['"', '"']
        } else {
            seq![c]
        }),
    decreases s.len(),
{
    let unit: Seq<char> = if c == '"' {
        seq!['"', '"']
    } else {
        seq![c]
    };
    if s.len() == 0 {
        assert(s.push(c)[0] == c);
        assert(s.push(c).drop_first() =~= s);
        assert(spec_escape_quotes(s.push(c)) == unit + spec_escape_quotes(s));
        assert(spec_escape_quotes(s) =~= Seq::<char>::empty());
        assert(unit + Seq::<char>::empty() =~= Seq::<char>::empty() + unit);
    } else {
        let unit0: Seq<char> = if s[0] == '"' {
            seq!['"', '"']
        } else {
            seq![s[0]]
        };
        assert(s.push(c)[0] == s[0]);
        assert(s.push(c).drop_first() =~= s.drop_first().push(c));
        assert(spec_escape_quotes(s.push(c)) == unit0 + spec_escape_quotes(
            s.drop_first().push(c),
        ));
        lemma_escape_push(s.drop_first(), c);
        assert(unit0 + (spec_escape_quotes(s.drop_first()) + unit) =~= (unit0
            + spec_escape_quotes(s.drop_first())) + unit);
        assert(spec_escape_quotes(s) == unit0 + spec_escape_quotes(s.drop_first()));
    }
}

/// `o` with `p` prepended to its content, when it has one.
pub open spec fn spec_prepend(p: Seq<char>, o: Option<Seq<char>>) -> Option<Seq<char>> {
    match o {
        Some(t) => Some(p + t),
        None => None,
    }
}

/// Parses a quoted CSV label field, undoing quote doubling; `None` when the
/// field is not quoted or a quote inside stands alone.
pub fn parse_csv_label_field(field: &str) -> (r: Option<String>)
    ensures
        match r {
            Some(s) => spec_parse_quoted(field@) == Some(s@),
            None => spec_parse_quoted(field@) is None,
        },
{
    let n = field.unicode_len();
    if n < 2 {
        return None;
    }
    if field.get_char(0) != '"' || field.get_char(n - 1) != '"' {
        return None;
    }
    let ghost inner = field@.subrange(1, n - 1);
    let mut out = String::new();
    proof {
        assert(inner.skip(0) =~= inner);
        if spec_unescape_quotes(inner) is Some {
            let t = spec_unescape_quotes(inner).unwrap();
            assert(Seq::<char>::empty() + t =~= t);
        }
    }
    let mut i: usize = 1;
    while i < n - 1
        invariant
            1 <= i <= n - 1,
            n == field@.len(),
            n >= 2,
            inner == field@.subrange(1, n - 1),
            spec_unescape_quotes(inner) == spec_prepend(
                out@,
                spec_unescape_quotes(inner.skip(i - 1)),
            ),
        decreases n - 1 - i,
    {
        let ghost rest = inner.skip(i - 1);
        let ghost out_old = out@;
        proof {
            assert(rest.len() == n - 1 - i);
            assert(rest[0] == field@[i as int]);
        }
        let c = field.get_char(i);
        if c == '"' {
            if i + 1 >= n - 1 || field.get_char(i + 1) != '"' {
                proof {
                    assert(rest.len() >= 2 ==> rest[1] == field@[i + 1]);
                    assert(spec_unescape_quotes(rest) is None);
                }
                return None;
            }
            push_char(&mut out, '"');
            proof {
                assert(rest[1] == field@[i + 1]);
                assert(rest.skip(2) =~= inner.skip(i + 1));
                if spec_unescape_quotes(inner.skip(i + 1)) is Some {
                    let t = spec_unescape_quotes(inner.skip(i + 1)).unwrap();
                    assert(out_old + (seq!['"'] + t) =~= (out_old + seq!['"']) + t);
                }
            }
            i += 2;
        } else {
            push_char(&mut out, c);
            proof {
                assert(rest.drop_first() =~= inner.skip(i as int));
                if spec_unescape_quotes(inner.skip(i as int)) is Some {
                    let t = spec_unescape_quotes(inner.skip(i as int)).unwrap();
                    assert(out_old + (seq![c] + t) =~= (out_old + seq![c]) + t);
                }
            }
            i += 1;
        }
    }
    proof {
        assert(inner.skip(i - 1) =~= Seq::<char>::empty());
        assert(out@ + Seq::<char>::empty() =~= out@);
        assert(spec_parse_quoted(field@) == Some(out@));
    }
    Some(out)
}

/// One CSV record: `start,end,"label"` and a line break.
pub open spec fn spec_csv_record(
    seg: ClipSegment,
    cache: Seq<SongCoreDataElement>,
    info: Option<SongInfoDat>,
) -> Seq<char> {
    spec_ms_decimal(seg.start as int) + ","@ + spec_ms_decimal(seg.end as int) + ","@
        + spec_quoted_label(spec_song_info_str(seg.song_play, cache, info)) + "\n"@
}

/// The CSV text for a whole segment list, one record per line.
pub open spec fn spec_csv(
    segs: Seq<ClipSegment>,
    cache: Seq<SongCoreDataElement>,
    infos: Seq<Option<SongInfoDat>>,
) -> Seq<char>
    decreases segs.len(),
{
    if segs.len() == 0 {
        Seq::empty()
    } else {
        spec_csv(segs.drop_last(), cache, infos.drop_last()) + spec_csv_record(
            segs.last(),
            cache,
            infos.last(),
        )
    }
}

/// Renders the segment list as CSV, one `start,end,"label"` record per
/// line. `song_infos` carries, for each segment in order, the song's on-disk
/// descriptor when one could be read; labels degrade to the bare content
/// hash as [`get_song_info_str`](crate::label::get_song_info_str) does.
#[verifier::rlimit(50)]
pub fn clip_segments_to_csv(
    clip_segments: &Vec<ClipSegment>,
    song_core_data_cache: &SongCoreDataCache,
    song_infos: &Vec<Option<SongInfoDat>>,
) -> (r: String)
    requires
        song_infos@.len() == clip_segments@.len(),
    ensures
        r@ == spec_csv(clip_segments@, song_core_data_cache@, song_infos@),
{
    let mut out = String::new();
    let mut i: usize = 0;
    while i < clip_segments.len()
        invariant
            0 <= i <= clip_segments.len(),
            song_infos@.len() == clip_segments@.len(),
            out@ == spec_csv(
                clip_segments@.take(i as int),
                song_core_data_cache@,
                song_infos@.take(i as int),
            ),
        decreases clip_segments.len() - i,
    {
        let seg = &clip_segments[i];
        let label = crate::label::get_song_info_str(
            &seg.song_play,
            song_core_data_cache,
            song_infos[i].as_ref(),
        );
        let start_str = ms_to_decimal(seg.start);
        let end_str = ms_to_decimal(seg.end);
        let quoted = quote_label(label.as_str());
        out.append(start_str.as_str());
        out.append(",");
        out.append(end_str.as_str());
        out.append(",");
        out.append(quoted.as_str());
        out.append("\n");
        proof {
            assert(clip_segments@.take(i + 1).drop_last() =~= clip_segments@.take(i as int));
            assert(song_infos@.take(i + 1).drop_last() =~= song_infos@.take(i as int));
            assert(clip_segments@.take(i + 1).last() == clip_segments@[i as int]);
            assert(song_infos@.take(i + 1).last() == song_infos@[i as int]);
            assert(out@ =~= spec_csv(
                clip_segments@.take(i + 1),
                song_core_data_cache@,
                song_infos@.take(i + 1),
            ));
        }
        i += 1;
    }
    proof {
        assert(clip_segments@.take(clip_segments@.len() as int) =~= clip_segments@);
        assert(song_infos@.take(song_infos@.len() as int) =~= song_infos@);
    }
    out
}

} // verus!

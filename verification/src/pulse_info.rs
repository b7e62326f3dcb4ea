//! Parsing the sound server's source-output listing.
//!
//! Running the listing command is shell plumbing and lives with the host
//! program; the parsing of its output is pure logic and lives here. The
//! format is line-oriented: `Source Output #` opens an entry, a `Source:`
//! line tells whether that entry hangs off the engine's virtual source, and
//! an `application.name = "..."` line carries the application's name.

use vstd::prelude::*;

use vstd::string::StringSliceAdditionalSpecFns;

verus! {

/// An application connected to the engine's virtual source.
#[derive(Debug, Clone)]
pub struct ConnectedApp {
    pub name: String,
}

/// Horizontal whitespace trimmed off line ends.
pub open spec fn is_space(b: u8) -> bool {
    b == 32 || b == 9 || b == 13
}

/// `Source Output #`
pub open spec fn entry_prefix() -> Seq<u8> {
    seq![
        'S' as u8, 'o' as u8, 'u' as u8, 'r' as u8, 'c' as u8, 'e' as u8, ' ' as u8, 'O' as u8,
        'u' as u8, 't' as u8, 'p' as u8, 'u' as u8, 't' as u8, ' ' as u8, '#' as u8,
    ]
}

/// `Source:`
pub open spec fn source_prefix() -> Seq<u8> {
    seq!['S' as u8, 'o' as u8, 'u' as u8, 'r' as u8, 'c' as u8, 'e' as u8, ':' as u8]
}

/// `application.name = `
pub open spec fn name_prefix() -> Seq<u8> {
    seq![
        'a' as u8, 'p' as u8, 'p' as u8, 'l' as u8, 'i' as u8, 'c' as u8, 'a' as u8, 't' as u8,
        'i' as u8, 'o' as u8, 'n' as u8, '.' as u8, 'n' as u8, 'a' as u8, 'm' as u8, 'e' as u8,
        ' ' as u8, '=' as u8, ' ' as u8,
    ]
}

/// `VoidMic_Clean`
pub open spec fn sink_needle() -> Seq<u8> {
    seq![
        'V' as u8, 'o' as u8, 'i' as u8, 'd' as u8, 'M' as u8, 'i' as u8, 'c' as u8, '_' as u8,
        'C' as u8, 'l' as u8, 'e' as u8, 'a' as u8, 'n' as u8,
    ]
}

/// First index at or after `i` holding something other than `stop`-class
/// bytes, by the classifier `quote`: false trims spaces, true trims quotes.
pub open spec fn skip_class(s: Seq<u8>, i: int, quote: bool) -> int
    recommends
        0 <= i <= s.len(),
    decreases s.len() - i,
{
    if 0 <= i < s.len() && (if quote {
        s[i] == 34
    } else {
        is_space(s[i])
    }) {
        skip_class(s, i + 1, quote)
    } else {
        i
    }
}

/// Last index before `j` holding a kept byte, scanning backward.
pub open spec fn rskip_class(s: Seq<u8>, j: int, quote: bool) -> int
    recommends
        0 <= j <= s.len(),
    decreases j,
{
    if 0 < j <= s.len() && (if quote {
        s[j - 1] == 34
    } else {
        is_space(s[j - 1])
    }) {
        rskip_class(s, j - 1, quote)
    } else {
        j
    }
}

/// A sequence with its leading and trailing bytes of one class removed.
pub open spec fn stripped(s: Seq<u8>, quote: bool) -> Seq<u8> {
    let lo = skip_class(s, 0, quote);
    let hi = rskip_class(s, s.len() as int, quote);
    if lo <= hi {
        s.subrange(lo, hi)
    } else {
        Seq::empty()
    }
}

pub open spec fn begins_with(s: Seq<u8>, p: Seq<u8>) -> bool {
    p.len() <= s.len() && s.subrange(0, p.len() as int) == p
}

pub open spec fn has_needle(s: Seq<u8>, p: Seq<u8>) -> bool {
    exists|k: int| 0 <= k <= s.len() - p.len() && #[trigger] s.subrange(k, k + p.len()) == p
}

/// The line machine's state: the entry's application name seen so far, and
/// whether the entry reads from the engine's virtual source.
pub struct EntryState {
    pub name: Option<Seq<u8>>,
    pub on_sink: bool,
    pub found: Seq<Seq<u8>>,
}

/// One line folded into the state.
pub open spec fn line_step(st: EntryState, line: Seq<u8>) -> EntryState {
    let l = stripped(line, false);
    if begins_with(l, entry_prefix()) {
        EntryState {
            name: None,
            on_sink: false,
            found: if st.on_sink && st.name is Some {
                st.found.push(st.name->0)
            } else {
                st.found
            },
        }
    } else if begins_with(l, source_prefix()) {
        EntryState { on_sink: has_needle(l, sink_needle()), ..st }
    } else if begins_with(l, name_prefix()) {
        EntryState {
            name: Some(stripped(l.subrange(name_prefix().len() as int, l.len() as int), true)),
            ..st
        }
    } else {
        st
    }
}

/// The machine run over the rest of the text: `line_start` marks where the
/// current line began; the last line and a final flush close the run.
pub open spec fn run_lines(s: Seq<u8>, i: int, line_start: int, st: EntryState) -> Seq<Seq<u8>>
    recommends
        0 <= line_start <= i <= s.len(),
    decreases s.len() - i,
{
    if i < 0 || i >= s.len() || line_start < 0 || line_start > i {
        let st2 = line_step(
            st,
            if 0 <= line_start <= s.len() {
                s.subrange(line_start, s.len() as int)
            } else {
                Seq::empty()
            },
        );
        if st2.on_sink && st2.name is Some {
            st2.found.push(st2.name->0)
        } else {
            st2.found
        }
    } else if s[i] == 10 {
        run_lines(s, i + 1, i + 1, line_step(st, s.subrange(line_start, i)))
    } else {
        run_lines(s, i + 1, line_start, st)
    }
}

/// The application names (as byte strings) the listing reports connected to
/// the engine's virtual source.
pub open spec fn parse_names(s: Seq<u8>) -> Seq<Seq<u8>> {
    run_lines(s, 0, 0, EntryState { name: None, on_sink: false, found: Seq::empty() })
}

/// Every byte is plain ASCII.
pub open spec fn all_ascii(s: Seq<u8>) -> bool {
    forall|j: int| 0 <= j < s.len() ==> (#[trigger] s[j]) < 128
}

/// ASCII bytes read as characters.
pub open spec fn decoded(s: Seq<u8>) -> Seq<char> {
    Seq::new(s.len(), |j: int| s[j] as char)
}

/// Relies on `String::from_utf8_lossy`: ASCII bytes are valid UTF-8 and
/// decode one to one, so for an all-ASCII input the characters are exactly
/// the bytes.
#[verifier::external_body]
fn bytes_to_string(bytes: &Vec<u8>) -> (r: String)
    ensures
        all_ascii(bytes@) ==> r@ == decoded(bytes@),
{
    String::from_utf8_lossy(bytes.as_slice()).into_owned()
}

/// Trims one class of byte off both ends, in place of the standard trims.
fn strip_vec(line: &Vec<u8>, quote: bool) -> (r: Vec<u8>)
    ensures
        r@ == stripped(line@, quote),
{
    let len = line.len();
    let mut lo: usize = 0;
    loop
        invariant_except_break
            0 <= lo <= len,
            len == line@.len(),
            skip_class(line@, 0, quote) == skip_class(line@, lo as int, quote),
        ensures
            0 <= lo <= len,
            len == line@.len(),
            skip_class(line@, 0, quote) == lo,
        decreases len - lo,
    {
        if lo < len {
            let b = line[lo];
            let cls = if quote {
                b == 34
            } else {
                b == 32 || b == 9 || b == 13
            };
            if cls {
                lo += 1;
            } else {
                proof {
                    assert(skip_class(line@, lo as int, quote) == lo);
                }
                break ;
            }
        } else {
            proof {
                assert(skip_class(line@, lo as int, quote) == lo);
            }
            break ;
        }
    }
    let mut hi: usize = len;
    loop
        invariant_except_break
            0 <= hi <= len,
            len == line@.len(),
            rskip_class(line@, len as int, quote) == rskip_class(line@, hi as int, quote),
        ensures
            0 <= hi <= len,
            len == line@.len(),
            rskip_class(line@, len as int, quote) == hi,
        decreases hi,
    {
        if hi > 0 {
            let b = line[hi - 1];
            let cls = if quote {
                b == 34
            } else {
                b == 32 || b == 9 || b == 13
            };
            if cls {
                hi -= 1;
            } else {
                proof {
                    assert(rskip_class(line@, hi as int, quote) == hi);
                }
                break ;
            }
        } else {
            proof {
                assert(rskip_class(line@, hi as int, quote) == hi);
            }
            break ;
        }
    }
    let mut out: Vec<u8> = Vec::new();
    if lo <= hi {
        let mut k = lo;
        while k < hi
            invariant
                lo <= k <= hi <= len,
                len == line@.len(),
                out@.len() == k - lo,
                forall|t: int| 0 <= t < k - lo ==> (#[trigger] out@[t]) == line@[lo + t],
            decreases hi - k,
        {
            out.push(line[k]);
            k += 1;
        }
        proof {
            assert(out@ =~= line@.subrange(lo as int, hi as int));
        }
    }
    out
}

/// Whether `line` begins with `pat`.
fn begins_with_vec(line: &Vec<u8>, pat: &Vec<u8>) -> (r: bool)
    ensures
        r == begins_with(line@, pat@),
{
    if pat.len() > line.len() {
        proof {
            assert(!begins_with(line@, pat@));
        }
        return false;
    }
    let mut k: usize = 0;
    while k < pat.len()
        invariant
            0 <= k <= pat@.len(),
            pat@.len() <= line@.len(),
            forall|t: int| 0 <= t < k ==> (#[trigger] line@[t]) == pat@[t],
        decreases pat@.len() - k,
    {
        if line[k] != pat[k] {
            proof {
                assert(line@.subrange(0, pat@.len() as int)[k as int] != pat@[k as int]);
            }
            return false;
        }
        k += 1;
    }
    proof {
        assert(line@.subrange(0, pat@.len() as int) =~= pat@);
    }
    true
}

/// Whether `pat` occurs anywhere in `line`.
fn has_needle_vec(line: &Vec<u8>, pat: &Vec<u8>) -> (r: bool)
    requires
        pat@.len() >= 1,
    ensures
        r == has_needle(line@, pat@),
{
    if pat.len() > line.len() {
        proof {
            assert(!has_needle(line@, pat@));
        }
        return false;
    }
    proof {
        assert(line@.len() <= usize::MAX);
    }
    let mut k: usize = 0;
    while k <= line.len() - pat.len()
        invariant
            0 <= k,
            k <= line@.len() - pat@.len() + 1,
            1 <= pat@.len() <= line@.len(),
            line@.len() <= usize::MAX,
            forall|t: int|
                0 <= t < k ==> (#[trigger] line@.subrange(t, t + pat@.len())) != pat@,
        decreases line@.len() - k,
    {
        let mut m: usize = 0;
        let mut matched = true;
        while m < pat.len() && matched
            invariant
                0 <= m <= pat@.len(),
                k + pat@.len() <= line@.len(),
                line@.len() <= usize::MAX,
                matched ==> forall|t: int| 0 <= t < m ==> (#[trigger] line@[k + t]) == pat@[t],
                !matched ==> line@.subrange(k as int, k + pat@.len()) != pat@,
            decreases pat@.len() - m + (if matched {
                1int
            } else {
                0int
            }),
        {
            proof {
                assert(k + m < line@.len());
                assert(line@.len() <= usize::MAX);
            }
            let idx: usize = k + m;
            if line[idx] != pat[m] {
                proof {
                    assert(line@.subrange(k as int, k + pat@.len())[m as int] != pat@[m as int]);
                }
                matched = false;
            } else {
                m += 1;
            }
        }
        if matched {
            proof {
                assert forall|t: int| 0 <= t < pat@.len() implies line@.subrange(
                    k as int,
                    k + pat@.len(),
                )[t] == pat@[t] by {
                    assert(line@[k + t] == pat@[t]);
                }
                assert(line@.subrange(k as int, k + pat@.len()) =~= pat@);
            }
            return true;
        }
        proof {
            assert(line@.subrange(k as int, k + pat@.len()) != pat@);
        }
        k += 1;
    }
    proof {
        assert forall|t: int| 0 <= t <= line@.len() - pat@.len() implies #[trigger] line@.subrange(
            t,
            t + pat@.len(),
        ) != pat@ by {}
        assert(!has_needle(line@, pat@));
    }
    false
}

fn entry_prefix_vec() -> (r: Vec<u8>)
    ensures
        r@ == entry_prefix(),
{
    let v: Vec<u8> = vec![
        'S' as u8, 'o' as u8, 'u' as u8, 'r' as u8, 'c' as u8, 'e' as u8, ' ' as u8, 'O' as u8,
        'u' as u8, 't' as u8, 'p' as u8, 'u' as u8, 't' as u8, ' ' as u8, '#' as u8,
    ];
    proof {
        assert(v@ =~= entry_prefix());
    }
    v
}

fn source_prefix_vec() -> (r: Vec<u8>)
    ensures
        r@ == source_prefix(),
{
    let v: Vec<u8> = vec!['S' as u8, 'o' as u8, 'u' as u8, 'r' as u8, 'c' as u8, 'e' as u8, ':' as u8];
    proof {
        assert(v@ =~= source_prefix());
    }
    v
}

fn name_prefix_vec() -> (r: Vec<u8>)
    ensures
        r@ == name_prefix(),
{
    let v: Vec<u8> = vec![
        'a' as u8, 'p' as u8, 'p' as u8, 'l' as u8, 'i' as u8, 'c' as u8, 'a' as u8, 't' as u8,
        'i' as u8, 'o' as u8, 'n' as u8, '.' as u8, 'n' as u8, 'a' as u8, 'm' as u8, 'e' as u8,
        ' ' as u8, '=' as u8, ' ' as u8,
    ];
    proof {
        assert(v@ =~= name_prefix());
    }
    v
}

fn sink_needle_vec() -> (r: Vec<u8>)
    ensures
        r@ == sink_needle(),
{
    let v: Vec<u8> = vec![
        'V' as u8, 'o' as u8, 'i' as u8, 'd' as u8, 'M' as u8, 'i' as u8, 'c' as u8, '_' as u8,
        'C' as u8, 'l' as u8, 'e' as u8, 'a' as u8, 'n' as u8,
    ];
    proof {
        assert(v@ =~= sink_needle());
    }
    v
}

/// The machine's executable state viewed as the spec state.
pub open spec fn state_of(
    has_name: bool,
    name_bytes: Seq<u8>,
    on_sink: bool,
    found: Seq<Seq<u8>>,
) -> EntryState {
    EntryState {
        name: if has_name {
            Some(name_bytes)
        } else {
            None
        },
        on_sink,
        found,
    }
}

/// One line folded into the executable state; mirrors `line_step`.
fn handle_line(
    line: &Vec<u8>,
    name_bytes: &mut Vec<u8>,
    has_name: &mut bool,
    on_sink: &mut bool,
    out: &mut Vec<ConnectedApp>,
    Ghost(found): Ghost<Seq<Seq<u8>>>,
) -> (r: Ghost<Seq<Seq<u8>>>)
    requires
        old(out)@.len() == found.len(),
        forall|t: int|
            0 <= t < found.len() && all_ascii(#[trigger] found[t]) ==> old(out)@[t].name@
                == decoded(found[t]),
    ensures
        ({
            let st = line_step(
                state_of(*old(has_name), old(name_bytes)@, *old(on_sink), found),
                line@,
            );
            &&& st == state_of(*final(has_name), final(name_bytes)@, *final(on_sink), r@)
            &&& final(out)@.len() == st.found.len()
            &&& forall|t: int|
                0 <= t < st.found.len() && all_ascii(#[trigger] st.found[t]) ==> final(out)@[t].name@ == decoded(st.found[t])
        }),
{
    let l = strip_vec(line, false);
    if begins_with_vec(&l, &entry_prefix_vec()) {
        let ghost flushed: Seq<Seq<u8>>;
        if *on_sink && *has_name {
            out.push(ConnectedApp { name: bytes_to_string(&name_bytes) });
            proof {
                flushed = found.push(name_bytes@);
            }
        } else {
            proof {
                flushed = found;
            }
        }
        *has_name = false;
        *name_bytes = Vec::new();
        *on_sink = false;
        Ghost(flushed)
    } else if begins_with_vec(&l, &source_prefix_vec()) {
        *on_sink = has_needle_vec(&l, &sink_needle_vec());
        Ghost(found)
    } else if begins_with_vec(&l, &name_prefix_vec()) {
        let plen = name_prefix_vec().len();
        let mut rest: Vec<u8> = Vec::new();
        let mut k = plen;
        while k < l.len()
            invariant
                name_prefix().len() <= k <= l@.len(),
                rest@.len() == k - name_prefix().len(),
                forall|t: int|
                    0 <= t < rest@.len() ==> (#[trigger] rest@[t]) == l@[name_prefix().len() + t],
            decreases l@.len() - k,
        {
            rest.push(l[k]);
            k += 1;
        }
        proof {
            assert(rest@ =~= l@.subrange(name_prefix().len() as int, l@.len() as int));
        }
        let unquoted = strip_vec(&rest, true);
        *name_bytes = unquoted;
        *has_name = true;
        Ghost(found)
    } else {
        Ghost(found)
    }
}

/// Extracts, from a `pactl list source-outputs` listing, the applications
/// connected to the engine's virtual source. The result has exactly the
/// entries the listing shows attached to that source, and every all-ASCII
/// application name is carried over byte for byte.
pub fn parse_source_outputs(text: &str) -> (r: Vec<ConnectedApp>)
    ensures
        r@.len() == parse_names(text.spec_bytes()).len(),
        forall|i: int|
            0 <= i < r@.len() && all_ascii(#[trigger] parse_names(text.spec_bytes())[i])
                ==> r@[i].name@ == decoded(parse_names(text.spec_bytes())[i]),
{
    let bytes = text.as_bytes();
    let ghost s = text.spec_bytes();
    let mut out: Vec<ConnectedApp> = Vec::new();
    let mut name_bytes: Vec<u8> = Vec::new();
    let mut has_name: bool = false;
    let mut on_sink: bool = false;
    let ghost mut found: Seq<Seq<u8>> = Seq::empty();
    let mut line: Vec<u8> = Vec::new();
    let mut i: usize = 0;
    let mut line_start: usize = 0;
    while i < bytes.len()
        invariant
            bytes@ == s,
            0 <= line_start <= i <= s.len(),
            line@ == s.subrange(line_start as int, i as int),
            out@.len() == found.len(),
            forall|t: int|
                0 <= t < found.len() && all_ascii(#[trigger] found[t]) ==> out@[t].name@
                    == decoded(found[t]),
            parse_names(s) == run_lines(
                s,
                i as int,
                line_start as int,
                state_of(has_name, name_bytes@, on_sink, found),
            ),
        decreases s.len() - i,
    {
        let c = bytes[i];
        if c == 10 {
            let g = handle_line(&line, &mut name_bytes, &mut has_name, &mut on_sink, &mut out, Ghost(found));
            proof {
                found = g@;
            }
            line = Vec::new();
            i += 1;
            line_start = i;
            proof {
                assert(line@ =~= s.subrange(line_start as int, i as int));
            }
        } else {
            line.push(c);
            i += 1;
            proof {
                assert(line@ =~= s.subrange(line_start as int, i as int));
            }
        }
    }
    // Final line and flush.
    let g = handle_line(&line, &mut name_bytes, &mut has_name, &mut on_sink, &mut out, Ghost(found));
    proof {
        found = g@;
    }
    if on_sink && has_name {
        out.push(ConnectedApp { name: bytes_to_string(&name_bytes) });
        proof {
            found = found.push(name_bytes@);
        }
    }
    out
}

} // verus!

//! What holds of descriptions of audio, as they are written and read.

use vstd::prelude::*;

use crate::net::{dotted, ipv6_text, IpAddress};
use crate::signaling::config::{codec_list, overridden, EnvVars, PreferredCodec, RawView};
use crate::signaling::error::ErrorView;
use crate::signaling::sdp::{
    all_types, attribute_lines, audio_section, inline_key, is_key, lossy_text, number_list,
    offer_in_body, offer_of, sdp_parsed, session_of, session_text, MediaView, OfferView, PeerView,
    SessionView,
};
use crate::signaling::times::{
    begins_line, blanks, endless_line_at, endless_times_from, endless_word_at, first_times,
    has_endless_time, next_line, time_overflows,
};
use crate::text::{decimal, digits_value, first_of, is_space, lowered, pieces, trimmed, words};
use crate::text_laws::{all_digits, is_solid, lacks};

verus! {

// ---------------------------------------------------------------------------
// Writing

/// The types of an offer are listed in decimal with blanks between them, the
/// codecs in their order and telephone events last.
pub proof fn types_are_listed_in_order(addr: IpAddress, session_id: u32, offer: OfferView, pt: u8)
    ensures
        number_list(Seq::empty()).len() == 0,
        number_list(seq![pt]) == decimal(pt as nat),
        offer.payload_types.len() > 0 ==> number_list(offer.payload_types.push(pt)) == number_list(
            offer.payload_types,
        ) + seq![' '] + decimal(pt as nat),
        offer.telephone_event_pt is None ==> session_of(addr, session_id, offer).fmt == number_list(
            offer.payload_types,
        ),
        offer.telephone_event_pt == Some(pt) ==> session_of(addr, session_id, offer).fmt
            == number_list(offer.payload_types.push(pt)),
        all_types(offer).len() >= offer.payload_types.len(),
{
    if offer.payload_types.len() > 0 {
        assert(offer.payload_types.push(pt).drop_last() =~= offer.payload_types);
    }
}

/// An address as a description names it.
pub open spec fn address_line(a: IpAddress) -> Seq<char> {
    match a {
        IpAddress::V4(n) => "IP4 "@ + dotted(n),
        IpAddress::V6(n) => "IP6 "@ + ipv6_text(n),
    }
}

/// A description has these lines: its version, where it comes from, its name, where
/// audio is received, a time without bounds, and the audio with its port, whether
/// it is encrypted, its types and its attributes.
pub proof fn descriptions_look_like_this(s: SessionView)
    ensures
        session_text(s) == "v=0\r\no=- "@ + decimal(s.session_id as nat) + " "@ + decimal(
            s.session_id as nat,
        ) + " IN "@ + address_line(s.local_addr) + "\r\ns=OxideSip\r\nc=IN "@ + address_line(
            s.local_addr,
        ) + "\r\nt=0 0\r\nm=audio "@ + decimal(s.port as nat) + (if s.secure {
            " RTP/SAVP "@
        } else {
            " RTP/AVP "@
        }) + s.fmt + attribute_lines(s.attributes) + "\r\n"@,
        attribute_lines(Seq::empty()).len() == 0,
{
    reveal_strlit("v=0\r\no=- ");
    reveal_strlit(" ");
    reveal_strlit(" IN ");
    reveal_strlit("IP4 ");
    reveal_strlit("IP6 ");
    reveal_strlit("\r\ns=OxideSip\r\nc=IN ");
    reveal_strlit("\r\nt=0 0\r\nm=audio ");
    reveal_strlit("\r\n");
    reveal_strlit("v=0");
    reveal_strlit("o=");
    reveal_strlit("-");
    reveal_strlit("s=OxideSip");
    reveal_strlit("c=");
    reveal_strlit("t=0 0");
    reveal_strlit("m=audio ");
    reveal_strlit("IN IP4 ");
    reveal_strlit("IN IP6 ");
    let id = decimal(s.session_id as nat);
    let port = decimal(s.port as nat);
    let kind = if s.secure {
        " RTP/SAVP "@
    } else {
        " RTP/AVP "@
    };
    let lines = attribute_lines(s.attributes);
    let addr = address_line(s.local_addr);
    let full = crate::signaling::sdp::address_text(s.local_addr);
    assert(full =~= "IN "@ + addr) by {
        reveal_strlit("IN ");
    }
    reveal_strlit("IN ");
    let origin = crate::signaling::sdp::origin_text("-"@, id, s.local_addr);
    let start = "v=0\r\no=- "@ + id + " "@ + id + " IN "@ + addr;
    assert("v=0"@ + "\r\n"@ + origin =~= start);
    let middle = start + "\r\ns=OxideSip\r\nc=IN "@ + addr;
    assert(start + "\r\n"@ + "s=OxideSip"@ + "\r\n"@
        + crate::signaling::sdp::connection_text(s.local_addr) =~= middle);
    let audio = middle + "\r\nt=0 0\r\nm=audio "@ + port;
    assert(middle + "\r\n"@ + "t=0 0"@ + "\r\n"@ + (crate::signaling::sdp::audio_text(
        s.port,
        s.secure,
        s.fmt,
    ) + lines) =~= audio + kind + s.fmt + lines);
}

// ---------------------------------------------------------------------------
// Reading

/// The first section of audio counts, whatever other sections stand before it;
/// without one the description cannot be used.
pub proof fn first_audio_counts(media: Seq<MediaView>, from: int, i: int)
    requires
        0 <= from <= i <= media.len(),
        forall|k: int| from <= k < i ==> (#[trigger] media[k]).media != "audio"@,
        i < media.len() ==> media[i].media == "audio"@,
    ensures
        i < media.len() ==> audio_section(media, from) == Some(media[i]),
        i == media.len() ==> audio_section(media, from) is None,
    decreases i - from,
{
    if from < i {
        first_audio_counts(media, from + 1, i);
    }
}

/// A key stands behind the word `inline:`, up to the next white space.
pub proof fn keys_stand_behind_inline(v: Seq<char>, i: int, key: Seq<char>, c: char, rest: Seq<char>)
    requires
        key.len() > 0,
        is_solid(key),
        is_space(c),
    ensures
        first_of(v, "inline:"@) is None ==> inline_key(v) is None,
        ({
            &&& first_of(v, "inline:"@) == Some(i)
            &&& first_of(v.skip(i + 7), "inline:"@) is None
            &&& v.skip(i + 7) == key || v.skip(i + 7) == key + seq![c] + rest
        }) ==> inline_key(v) == Some(key),
        first_of(v, "inline:"@) == Some(i) && v.len() == i + 7 ==> (inline_key(v) matches Some(k)
            && k.len() == 0),
{
    reveal_strlit("inline:");
    if first_of(v, "inline:"@) == Some(i) && v.len() == i + 7 {
        assert(v.skip(i + 7) =~= Seq::<char>::empty());
        crate::text::first_from_is_least(v.skip(i + 7), "inline:"@, 0);
    }
    crate::text_laws::words_stand_between_white_space(key, c, rest);
    if v.skip(i + 7) == key + seq![c] + rest {
        assert(words(v.skip(i + 7))[0] == key);
    }
    if v.skip(i + 7) == key {
        assert(words(v.skip(i + 7))[0] == key);
    }
}

/// The characters of base64 are letters, digits, plus signs, slashes and, for what
/// is missing at the end, equals signs.
pub proof fn keys_are_base64(c: char)
    ensures
        is_key(seq![c]) <==> 65 <= c as int <= 90 || 97 <= c as int <= 122 || 47 <= c as int <= 57
            || c as int == 43 || c as int == 61,
        is_key(Seq::empty()),
{
    assert(seq![c][0] == c);
    if is_key(seq![c]) {
        assert(crate::signaling::sdp::is_base64(seq![c][0]));
    }
}

/// A body is read as a description; one that cannot be read is an error that says
/// why, and one with a time that no duration can hold is refused before it is
/// read.
pub proof fn bodies_are_read(body: Seq<u8>, p: PeerView, why: Seq<char>)
    ensures
        has_endless_time(lossy_text(body)) ==> offer_in_body(body) == Err::<OfferView, Seq<char>>(
            "time out of range"@,
        ),
        !has_endless_time(lossy_text(body)) && sdp_parsed(lossy_text(body)) == Ok::<
            PeerView,
            Seq<char>,
        >(p) ==> offer_in_body(body) == offer_of(p),
        !has_endless_time(lossy_text(body)) && sdp_parsed(lossy_text(body)) == Err::<
            PeerView,
            Seq<char>,
        >(why) ==> offer_in_body(body) == Err::<OfferView, Seq<char>>(
            "failed to parse SDP: "@ + why,
        ),
{
}

// ---------------------------------------------------------------------------
// Times

/// A time is too long if it has more seconds than a duration can hold, a minute
/// being sixty of them, an hour sixty minutes and a day twenty-four hours.
pub proof fn long_times_are_told(d: Seq<char>)
    requires
        d.len() > 0,
        all_digits(d),
        digits_value(d) <= i64::MAX,
    ensures
        time_overflows(d) <==> digits_value(d) > 9_223_372_036_854_775,
        time_overflows(d.push('s')) <==> digits_value(d) > 9_223_372_036_854_775,
        time_overflows(d.push('m')) <==> digits_value(d) * 60 > 9_223_372_036_854_775,
        time_overflows(d.push('h')) <==> digits_value(d) * 60 * 60 > 9_223_372_036_854_775,
        time_overflows(d.push('d')) <==> digits_value(d) * 24 * 60 * 60 > 9_223_372_036_854_775,
        time_overflows(seq!['-'] + d) <==> time_overflows(d),
        !time_overflows(Seq::empty()),
        !time_overflows(d.push('x')),
{
    assert(48 <= d[0] as int <= 57);
    assert(48 <= d.last() as int <= 57) by {
        assert(d[d.len() - 1] == d.last());
    }
    assert forall|i: int| 0 <= i < d.len() implies crate::text::is_digit(#[trigger] d[i]) by {
        assert(48 <= d[i] as int <= 57);
    }
    assert(d.push('s').drop_last() =~= d);
    assert(d.push('m').drop_last() =~= d);
    assert(d.push('h').drop_last() =~= d);
    assert(d.push('d').drop_last() =~= d);
    assert(crate::signaling::times::signed_digits(d) == d);
    let n = seq!['-'] + d;
    assert(n.last() == d.last());
    assert(n.skip(1) =~= d);
    let x = d.push('x');
    assert(x.last() == 'x');
    assert(x[0] == d[0]);
    assert(crate::signaling::times::signed_digits(x) == x);
    assert(!crate::text::is_digit(x[d.len() as int]));
}

/// Repeat times behind the time of a session are looked at: a description is
/// refused for one exactly if it is too long.
pub proof fn repeat_times_are_looked_at(w: Seq<char>)
    requires
        lacks(w, ' '),
        lacks(w, '\r'),
        lacks(w, '\n'),
    ensures
        has_endless_time("t=0 0\r\nr="@ + w + "\r\n"@) <==> time_overflows(w),
        !has_endless_time("r="@ + w + "\r\n"@),
{
    reveal_strlit("t=0 0\r\nr=");
    reveal_strlit("r=");
    reveal_strlit("\r\n");
    reveal_strlit("\r");
    reveal_strlit("\n");
    let s = "t=0 0\r\nr="@ + w + "\r\n"@;
    let n = 9 + w.len() as int;
    assert forall|k: int| 9 <= k < n implies #[trigger] s[k] != '\r' && s[k] != '\n' && s[k]
        != ' ' by {
        assert(s[k] == w[k - 9]);
    }
    assert(s[n] == '\r' && s[n + 1] == '\n');
    break_is_found(s, 0, 5);
    break_is_found(s, 7, n);
    assert(begins_line(s, 0, 't'));
    assert(begins_line(s, 7, 'r'));
    assert(!endless_times_from(s, n + 2, false));
    assert(s.subrange(9, n) =~= w);
    if time_overflows(w) {
        assert(endless_word_at(s, 7, 9, n));
    }
    if endless_line_at(s, 7) {
        let (a, b) = choose|a: int, b: int| #[trigger] endless_word_at(s, 7, a, b);
        if b > n {
            assert(s[n] == '\r');
        }
        assert(b == n);
        if a != 9 {
            assert(s[a - 1] == ' ');
        }
        assert(time_overflows(w));
    }
    let t = "r="@ + w + "\r\n"@;
    let m = 2 + w.len() as int;
    assert forall|k: int| 2 <= k < m implies #[trigger] t[k] != '\r' && t[k] != '\n' by {
        assert(t[k] == w[k - 2]);
    }
    assert(t[m] == '\r' && t[m + 1] == '\n');
    break_is_found(t, 0, m);
    assert(first_times(t, m + 2) == t.len());
    assert(!begins_line(t, 0, 't'));
    assert(first_times(t, 0) == t.len());
}

/// In a line of time zones the moments that stand first are not looked at, and the
/// times behind them are.
pub proof fn time_zones_are_looked_at(m: Seq<char>, w: Seq<char>)
    requires
        lacks(m, ' '),
        lacks(m, '\r'),
        lacks(m, '\n'),
        lacks(w, ' '),
        lacks(w, '\r'),
        lacks(w, '\n'),
    ensures
        has_endless_time("t=0 0\r\nz="@ + m + seq![' '] + w + "\r\n"@) <==> time_overflows(w),
{
    reveal_strlit("t=0 0\r\nz=");
    reveal_strlit("\r\n");
    let s = "t=0 0\r\nz="@ + m + seq![' '] + w + "\r\n"@;
    let g = 9 + m.len() as int;
    let n = g + 1 + w.len() as int;
    assert forall|k: int| 9 <= k < g implies #[trigger] s[k] != '\r' && s[k] != '\n' && s[k]
        != ' ' by {
        assert(s[k] == m[k - 9]);
    }
    assert forall|k: int| g < k < n implies #[trigger] s[k] != '\r' && s[k] != '\n' && s[k]
        != ' ' by {
        assert(s[k] == w[k - g - 1]);
    }
    assert(s[g] == ' ');
    assert(s[n] == '\r' && s[n + 1] == '\n');
    break_is_found(s, 0, 5);
    break_is_found(s, 7, n);
    assert(begins_line(s, 0, 't'));
    assert(begins_line(s, 7, 'z'));
    assert(!endless_times_from(s, n + 2, true));
    assert(s.subrange(g + 1, n) =~= w);
    no_blanks(s, 9, g);
    assert(blanks(s, 9, g + 1) == 1);
    assert(blanks(s, 9, 9) == 0);
    if time_overflows(w) {
        assert(endless_word_at(s, 7, g + 1, n));
    }
    if endless_line_at(s, 7) {
        let (a, b) = choose|a: int, b: int| #[trigger] endless_word_at(s, 7, a, b);
        if b > n {
            assert(s[n] == '\r');
        }
        if a != 9 {
            assert(s[a - 1] == ' ');
            assert(a == g + 1);
        }
        if b < n {
            assert(b == g);
        }
        assert(a == g + 1 && b == n);
    }
}

proof fn no_blanks(s: Seq<char>, i: int, j: int)
    requires
        0 <= i <= j <= s.len(),
        forall|k: int| i <= k < j ==> #[trigger] s[k] != ' ',
    ensures
        blanks(s, i, j) == 0,
    decreases j - i,
{
    if i < j {
        no_blanks(s, i, j - 1);
    }
}

/// A number that does not fit 64 bits with its sign is no time: the largest with a
/// sign is one more than the largest without.
pub proof fn largest_times_are_told(d: Seq<char>)
    requires
        d.len() > 0,
        all_digits(d),
    ensures
        digits_value(d) > 0x8000_0000_0000_0000 ==> !time_overflows(seq!['-'] + d),
        digits_value(d) == 0x8000_0000_0000_0000 ==> time_overflows(seq!['-'] + d),
        digits_value(d) >= 0x8000_0000_0000_0000 ==> !time_overflows(d) && !time_overflows(
            seq!['+'] + d,
        ),
{
    assert(48 <= d[0] as int <= 57);
    assert(48 <= d.last() as int <= 57) by {
        assert(d[d.len() - 1] == d.last());
    }
    assert forall|i: int| 0 <= i < d.len() implies crate::text::is_digit(#[trigger] d[i]) by {
        assert(48 <= d[i] as int <= 57);
    }
    let n = seq!['-'] + d;
    let m = seq!['+'] + d;
    assert(n.last() == d.last() && m.last() == d.last());
    assert(n.skip(1) =~= d && m.skip(1) =~= d);
}

/// A line goes on behind its first line break.
proof fn break_is_found(s: Seq<char>, i: int, j: int)
    requires
        0 <= i <= j,
        j + 1 < s.len(),
        s[j] == '\r',
        s[j + 1] == '\n',
        forall|k: int| i <= k < j ==> #[trigger] s[k] != '\r',
    ensures
        next_line(s, i) == j + 2,
{
    reveal_strlit("\r\n");
    crate::text::first_from_is_least(s, "\r\n"@, i);
    assert(s.subrange(j, j + 2) =~= "\r\n"@);
    assert(crate::text::occurs_at(s, "\r\n"@, j));
    assert forall|k: int| i <= k < j implies !crate::text::occurs_at(s, "\r\n"@, k) by {
        if crate::text::occurs_at(s, "\r\n"@, k) {
            assert(s.subrange(k, k + 2)[0] == s[k]);
        }
    }
}

// ---------------------------------------------------------------------------
// Accounts

/// The codecs in a list are those that its pieces name, in any case and without the
/// white space around them, in order; a piece that names none does not count.
pub proof fn codecs_are_listed_with_commas(first: Seq<char>)
    requires
        lacks(first, ','),
    ensures
        lowered(trimmed(first)) == seq!['u', 'l', 'a', 'w'] ==> codec_list(first) == seq![
            PreferredCodec::Ulaw,
        ],
        lowered(trimmed(first)) == seq!['a', 'l', 'a', 'w'] ==> codec_list(first) == seq![
            PreferredCodec::Alaw,
        ],
        lowered(trimmed(first)) != seq!['u', 'l', 'a', 'w'] && lowered(trimmed(first)) != seq![
            'a',
            'l',
            'a',
            'w',
        ] ==> codec_list(first).len() == 0,
{
    crate::text_laws::texts_are_parted_at_a_character(first, ',', first);
    crate::signaling::laws::codecs_go_by_their_numbers(trimmed(first));
    let p = pieces(first, ',');
    assert(p.len() == 1 && p[0] == first);
    reveal_with_fuel(crate::signaling::config::codecs_named, 2);
    let none = Seq::<PreferredCodec>::empty();
    assert(none.push(PreferredCodec::Ulaw) =~= seq![PreferredCodec::Ulaw]);
    assert(none.push(PreferredCodec::Alaw) =~= seq![PreferredCodec::Alaw]);
}

/// Each piece of a list adds its codec behind those before it.
pub proof fn each_piece_adds_its_codec(w: Seq<Seq<char>>, n: int)
    requires
        0 <= n < w.len(),
    ensures
        ({
            let before = crate::signaling::config::codecs_named(w, n);
            let after = crate::signaling::config::codecs_named(w, n + 1);
            match PreferredCodec::named(trimmed(w[n])) {
                Some(c) => after == before.push(c),
                None => after == before,
            }
        }),
        crate::signaling::config::codecs_named(w, 0).len() == 0,
{
}

/// The server, the user and the password of the environment win over those that
/// were said, each over its own.
pub proof fn variables_name_the_account(raw: RawView, env: EnvVars)
    ensures
        ({
            let r = overridden(raw, env);
            &&& match env.sip_server_host {
                Some(s) => r.sip_server_host == Some(s@),
                None => r.sip_server_host == raw.sip_server_host,
            }
            &&& match env.username {
                Some(s) => r.username == Some(s@),
                None => r.username == raw.username,
            }
            &&& match env.password {
                Some(s) => r.password == Some(s@),
                None => r.password == raw.password,
            }
        }),
{
}

// ---------------------------------------------------------------------------
// Errors

/// Errors of the configuration and of descriptions say that they are; others are
/// told as they came.
pub proof fn errors_say_where_they_come_from(e: Seq<char>)
    ensures
        ErrorView::Sip(e).message() == e,
        ErrorView::Io(e).message() == e,
        ErrorView::Config(e).message() == "config error: "@ + e,
        ErrorView::Sdp(e).message() == "sdp error: "@ + e,
{
}

} // verus!

use vstd::prelude::*;
use crate::bytes::{copy_bytes, find_byte, find_byte_from, lemma_find_byte, lemma_find_byte_absent, lemma_find_byte_at, sub_bytes};
use crate::error::OfferWebSocketError;

verus! {

broadcast use crate::bytes::lemma_bytes_deep_view;

// ---------------------------------------------------------------------------
// Data model
//
// A session description is modelled as lines of text: a leading session part
// and then one part per `m=` media section.  `a=` lines are parsed into
// attributes (the only lines this gateway rewrites); every other line is
// carried verbatim.
// ---------------------------------------------------------------------------

/// One parsed `a=` attribute: `a=key:value` or bare `a=key`.
pub struct Attribute {
    pub key: Vec<u8>,
    pub value: Option<Vec<u8>>,
}

/// Ghost image of an `Attribute`.
#[verifier::ext_equal]
pub struct AttributeV {
    pub key: Seq<u8>,
    pub value: Option<Seq<u8>>,
}

impl View for Attribute {
    type V = AttributeV;

    open spec fn view(&self) -> AttributeV {
        AttributeV {
            key: self.key@,
            value: match self.value {
                Some(v) => Some(v@),
                None => None,
            },
        }
    }
}

/// One line of a session description: a parsed attribute, or any other line
/// kept verbatim (without its line terminator).
pub enum SdpLine {
    Attribute(Attribute),
    Other(Vec<u8>),
}

/// Ghost image of an `SdpLine`.
#[verifier::ext_equal]
pub enum SdpLineV {
    Attribute(AttributeV),
    Other(Seq<u8>),
}

impl View for SdpLine {
    type V = SdpLineV;

    open spec fn view(&self) -> SdpLineV {
        match self {
            SdpLine::Attribute(a) => SdpLineV::Attribute(a@),
            SdpLine::Other(t) => SdpLineV::Other(t@),
        }
    }
}

/// One media section: its full `m=` line and the lines that follow it up to
/// the next media section.
pub struct MediaDescription {
    pub media_line: Vec<u8>,
    pub lines: Vec<SdpLine>,
}

/// Ghost image of a `MediaDescription`.
#[verifier::ext_equal]
pub struct MediaDescriptionV {
    pub media_line: Seq<u8>,
    pub lines: Seq<SdpLineV>,
}

impl View for MediaDescription {
    type V = MediaDescriptionV;

    open spec fn view(&self) -> MediaDescriptionV {
        MediaDescriptionV {
            media_line: self.media_line@,
            lines: self.lines@.map_values(|l: SdpLine| l@),
        }
    }
}

/// A whole session description: the session-level lines and the media
/// sections, in document order.
pub struct SessionDescription {
    pub session_lines: Vec<SdpLine>,
    pub media_descriptions: Vec<MediaDescription>,
}

/// Ghost image of a `SessionDescription`.
#[verifier::ext_equal]
pub struct SessionDescriptionV {
    pub session_lines: Seq<SdpLineV>,
    pub media_descriptions: Seq<MediaDescriptionV>,
}

impl View for SessionDescription {
    type V = SessionDescriptionV;

    open spec fn view(&self) -> SessionDescriptionV {
        SessionDescriptionV {
            session_lines: self.session_lines@.map_values(|l: SdpLine| l@),
            media_descriptions: self.media_descriptions@.map_values(|m: MediaDescription| m@),
        }
    }
}

/// The `a=setup` role taken from the offer: which side initiates the DTLS
/// handshake.
#[derive(Debug, Clone, Copy, PartialEq, Eq, Structural)]
pub enum ActiveMode {
    Active,
    Passive,
    ActivePassive,
}

/// What the gateway needs from an offer: the remote ICE credentials, the
/// local certificate fingerprint it will answer with, and the `a=setup`
/// role.  Immutable once parsed.
pub struct SdpConfig {
    pub remote_ice_username: Vec<u8>,
    pub remote_ice_password: Vec<u8>,
    pub fingerprint: Vec<u8>,
    pub active_mode: ActiveMode,
}

/// Ghost image of an `SdpConfig`.
#[verifier::ext_equal]
pub struct SdpConfigV {
    pub remote_ice_username: Seq<u8>,
    pub remote_ice_password: Seq<u8>,
    pub fingerprint: Seq<u8>,
    pub active_mode: ActiveMode,
}

impl View for SdpConfig {
    type V = SdpConfigV;

    open spec fn view(&self) -> SdpConfigV {
        SdpConfigV {
            remote_ice_username: self.remote_ice_username@,
            remote_ice_password: self.remote_ice_password@,
            fingerprint: self.fingerprint@,
            active_mode: self.active_mode,
        }
    }
}

// ---------------------------------------------------------------------------
// Attribute keys and values, as byte strings
// ---------------------------------------------------------------------------

/// `ice-ufrag`
pub open spec fn key_ice_ufrag() -> Seq<u8> {
    seq![105u8, 99u8, 101u8, 45u8, 117u8, 102u8, 114u8, 97u8, 103u8]
}

/// `ice-pwd`
pub open spec fn key_ice_pwd() -> Seq<u8> {
    seq![105u8, 99u8, 101u8, 45u8, 112u8, 119u8, 100u8]
}

/// `setup`
pub open spec fn key_setup() -> Seq<u8> {
    seq![115u8, 101u8, 116u8, 117u8, 112u8]
}

/// `sendonly`
pub open spec fn key_sendonly() -> Seq<u8> {
    seq![115u8, 101u8, 110u8, 100u8, 111u8, 110u8, 108u8, 121u8]
}

/// `sendrecv`
pub open spec fn key_sendrecv() -> Seq<u8> {
    seq![115u8, 101u8, 110u8, 100u8, 114u8, 101u8, 99u8, 118u8]
}

/// `recvonly`
pub open spec fn key_recvonly() -> Seq<u8> {
    seq![114u8, 101u8, 99u8, 118u8, 111u8, 110u8, 108u8, 121u8]
}

/// `fingerprint`
pub open spec fn key_fingerprint() -> Seq<u8> {
    seq![102u8, 105u8, 110u8, 103u8, 101u8, 114u8, 112u8, 114u8, 105u8, 110u8, 116u8]
}

/// `active`
pub open spec fn val_active() -> Seq<u8> {
    seq![97u8, 99u8, 116u8, 105u8, 118u8, 101u8]
}

/// `passive`
pub open spec fn val_passive() -> Seq<u8> {
    seq![112u8, 97u8, 115u8, 115u8, 105u8, 118u8, 101u8]
}

/// `sha-256 ` (with its trailing separator)
pub open spec fn val_sha256_prefix() -> Seq<u8> {
    seq![115u8, 104u8, 97u8, 45u8, 50u8, 53u8, 54u8, 32u8]
}

/// `ice-ufrag`
pub fn lit_ice_ufrag() -> (r: Vec<u8>)
    ensures
        r@ == key_ice_ufrag(),
{
    let r: Vec<u8> = vec![105u8, 99u8, 101u8, 45u8, 117u8, 102u8, 114u8, 97u8, 103u8];
    assert(r@ =~= key_ice_ufrag());
    r
}

/// `ice-pwd`
pub fn lit_ice_pwd() -> (r: Vec<u8>)
    ensures
        r@ == key_ice_pwd(),
{
    let r: Vec<u8> = vec![105u8, 99u8, 101u8, 45u8, 112u8, 119u8, 100u8];
    assert(r@ =~= key_ice_pwd());
    r
}

/// `setup`
pub fn lit_setup() -> (r: Vec<u8>)
    ensures
        r@ == key_setup(),
{
    let r: Vec<u8> = vec![115u8, 101u8, 116u8, 117u8, 112u8];
    assert(r@ =~= key_setup());
    r
}

/// `sendonly`
pub fn lit_sendonly() -> (r: Vec<u8>)
    ensures
        r@ == key_sendonly(),
{
    let r: Vec<u8> = vec![115u8, 101u8, 110u8, 100u8, 111u8, 110u8, 108u8, 121u8];
    assert(r@ =~= key_sendonly());
    r
}

/// `sendrecv`
pub fn lit_sendrecv() -> (r: Vec<u8>)
    ensures
        r@ == key_sendrecv(),
{
    let r: Vec<u8> = vec![115u8, 101u8, 110u8, 100u8, 114u8, 101u8, 99u8, 118u8];
    assert(r@ =~= key_sendrecv());
    r
}

/// `recvonly`
pub fn lit_recvonly() -> (r: Vec<u8>)
    ensures
        r@ == key_recvonly(),
{
    let r: Vec<u8> = vec![114u8, 101u8, 99u8, 118u8, 111u8, 110u8, 108u8, 121u8];
    assert(r@ =~= key_recvonly());
    r
}

/// `fingerprint`
pub fn lit_fingerprint() -> (r: Vec<u8>)
    ensures
        r@ == key_fingerprint(),
{
    let r: Vec<u8> = vec![102u8, 105u8, 110u8, 103u8, 101u8, 114u8, 112u8, 114u8, 105u8, 110u8,
        116u8];
    assert(r@ =~= key_fingerprint());
    r
}

/// `active`
pub fn lit_active() -> (r: Vec<u8>)
    ensures
        r@ == val_active(),
{
    let r: Vec<u8> = vec![97u8, 99u8, 116u8, 105u8, 118u8, 101u8];
    assert(r@ =~= val_active());
    r
}

/// `passive`
pub fn lit_passive() -> (r: Vec<u8>)
    ensures
        r@ == val_passive(),
{
    let r: Vec<u8> = vec![112u8, 97u8, 115u8, 115u8, 105u8, 118u8, 101u8];
    assert(r@ =~= val_passive());
    r
}

/// `sha-256 ` (with its trailing separator)
pub fn lit_sha256_prefix() -> (r: Vec<u8>)
    ensures
        r@ == val_sha256_prefix(),
{
    let r: Vec<u8> = vec![115u8, 104u8, 97u8, 45u8, 50u8, 53u8, 54u8, 32u8];
    assert(r@ =~= val_sha256_prefix());
    r
}

// ---------------------------------------------------------------------------
// Text to structure
// ---------------------------------------------------------------------------

/// Whether a line is an `a=` attribute line (97 is `a`, 61 is `=`).
pub open spec fn is_attribute_line(line: Seq<u8>) -> bool {
    line.len() >= 2 && line[0] == 97 && line[1] == 61
}

/// Whether a line opens a media section (`m=`; 109 is `m`).
pub open spec fn is_media_line(line: Seq<u8>) -> bool {
    line.len() >= 2 && line[0] == 109 && line[1] == 61
}

/// Whether a line is a protocol-version line (`v=`; 118 is `v`).
pub open spec fn is_version_line(line: Seq<u8>) -> bool {
    line.len() >= 2 && line[0] == 118 && line[1] == 61
}

/// How one line reads as an `SdpLine`: `a=key:value` and `a=key` become
/// attributes (split at the first `:`, 58), anything else is carried
/// verbatim.
pub open spec fn spec_classify_line(line: Seq<u8>) -> SdpLineV {
    if is_attribute_line(line) {
        let rest = line.skip(2);
        match find_byte(rest, 58) {
            Some(i) => SdpLineV::Attribute(
                AttributeV { key: rest.take(i), value: Some(rest.skip(i + 1)) },
            ),
            None => SdpLineV::Attribute(AttributeV { key: rest, value: None }),
        }
    } else {
        SdpLineV::Other(line)
    }
}

/// Reads one line as an `SdpLine`.
pub fn classify_line(line: Vec<u8>) -> (r: SdpLine)
    ensures
        r@ == spec_classify_line(line@),
{
    proof {
        lemma_find_byte(line@.skip(2), 58);
        if line@.len() >= 2 {
            assert(forall|k: int|
                0 <= k < line@.skip(2).len() ==> line@.skip(2)[k] == line@[k + 2]);
        }
    }
    if line.len() >= 2 && line[0] == 97 && line[1] == 61 {
        match find_byte_from(&line, 2, 58) {
            Some(i) => {
                let key = sub_bytes(&line, 2, i);
                let value = sub_bytes(&line, i + 1, line.len());
                proof {
                    assert(line@.skip(2)[i - 2] == 58);
                    assert(find_byte(line@.skip(2), 58) == Some(i - 2));
                    assert(key@ =~= line@.skip(2).take(i - 2));
                    assert(value@ =~= line@.skip(2).skip(i - 2 + 1));
                }
                SdpLine::Attribute(Attribute { key, value: Some(value) })
            },
            None => {
                let key = sub_bytes(&line, 2, line.len());
                proof {
                    assert(find_byte(line@.skip(2), 58) is None);
                    assert(key@ =~= line@.skip(2));
                }
                SdpLine::Attribute(Attribute { key, value: None })
            },
        }
    } else {
        SdpLine::Other(line)
    }
}

/// A line with a trailing carriage return (13) stripped.
pub open spec fn trim_cr(line: Seq<u8>) -> Seq<u8> {
    if line.len() > 0 && line.last() == 13 {
        line.drop_last()
    } else {
        line
    }
}

/// The lines of a document: fragments between newline bytes (10), each with
/// a trailing carriage return stripped, empty fragments dropped.
pub open spec fn spec_split_lines(s: Seq<u8>) -> Seq<Seq<u8>>
    decreases s.len(),
    via spec_split_lines_decreases
{
    if s.len() == 0 {
        seq![]
    } else {
        match find_byte(s, 10) {
            Some(i) => {
                let line = trim_cr(s.take(i));
                let rest = spec_split_lines(s.skip(i + 1));
                if line.len() == 0 {
                    rest
                } else {
                    seq![line] + rest
                }
            },
            None => {
                let line = trim_cr(s);
                if line.len() == 0 {
                    seq![]
                } else {
                    seq![line]
                }
            },
        }
    }
}

#[via_fn]
proof fn spec_split_lines_decreases(s: Seq<u8>) {
    if s.len() > 0 {
        lemma_find_byte(s, 10);
    }
}

/// Splits a document into its lines.
pub fn split_lines(input: &Vec<u8>) -> (lines: Vec<Vec<u8>>)
    ensures
        lines.deep_view() == spec_split_lines(input@),
{
    let mut lines: Vec<Vec<u8>> = Vec::new();
    let mut pos: usize = 0;
    proof {
        assert(input@.skip(0) =~= input@);
        assert(lines.deep_view() + spec_split_lines(input@) =~~= spec_split_lines(input@));
    }
    while pos < input.len()
        invariant
            pos <= input@.len(),
            lines.deep_view() + spec_split_lines(input@.skip(pos as int)) == spec_split_lines(
                input@,
            ),
        decreases input@.len() - pos,
    {
        let ghost rest = input@.skip(pos as int);
        let nl = find_byte_from(input, pos, 10);
        let stop: usize = match nl {
            Some(j) => j,
            None => input.len(),
        };
        proof {
            lemma_find_byte(rest, 10);
            match nl {
                Some(j) => {
                    assert(rest[j - pos] == 10 && forall|k: int|
                        0 <= k < j - pos ==> rest[k] != 10);
                    assert(find_byte(rest, 10) == Some(j - pos as int));
                },
                None => {
                    assert(forall|k: int| 0 <= k < rest.len() ==> rest[k] != 10);
                    assert(find_byte(rest, 10) is None);
                },
            }
        }
        let mut end = stop;
        if end > pos && input[end - 1] == 13 {
            end = end - 1;
        }
        proof {
            match nl {
                Some(j) => {
                    assert(rest.take(j - pos as int) =~= input@.subrange(pos as int, j as int));
                    assert(trim_cr(rest.take(j - pos as int)) =~= input@.subrange(
                        pos as int,
                        end as int,
                    ));
                },
                None => {
                    assert(rest =~= input@.subrange(pos as int, input@.len() as int));
                    assert(trim_cr(rest) =~= input@.subrange(pos as int, end as int));
                },
            }
        }
        if end > pos {
            let line = sub_bytes(input, pos, end);
            lines.push(line);
        }
        let ghost old_pos = pos as int;
        match nl {
            Some(j) => {
                pos = j + 1;
            },
            None => {
                pos = input.len();
            },
        }
        proof {
            assert(input@.skip(old_pos).skip((pos - old_pos) as int) =~= input@.skip(pos as int));
            assert(lines.deep_view() + spec_split_lines(input@.skip(pos as int))
                =~~= spec_split_lines(input@));
        }
    }
    proof {
        assert(spec_split_lines(input@.skip(pos as int)) =~= Seq::<Seq<u8>>::empty());
        assert(lines.deep_view() =~~= spec_split_lines(input@));
    }
    lines
}

// ---------------------------------------------------------------------------
// Parsing a whole document
// ---------------------------------------------------------------------------

/// An empty session description.
pub open spec fn empty_sdp() -> SessionDescriptionV {
    SessionDescriptionV { session_lines: seq![], media_descriptions: seq![] }
}

/// One line's effect on the structure being built: an `m=` line opens a new
/// media section; any other line joins the newest section, or the session
/// part while no section is open yet.
pub open spec fn spec_parse_step(s: SessionDescriptionV, line: Seq<u8>) -> SessionDescriptionV {
    if is_media_line(line) {
        SessionDescriptionV {
            session_lines: s.session_lines,
            media_descriptions: s.media_descriptions.push(
                MediaDescriptionV { media_line: line, lines: seq![] },
            ),
        }
    } else if s.media_descriptions.len() == 0 {
        SessionDescriptionV {
            session_lines: s.session_lines.push(spec_classify_line(line)),
            media_descriptions: s.media_descriptions,
        }
    } else {
        let k = s.media_descriptions.len() - 1;
        SessionDescriptionV {
            session_lines: s.session_lines,
            media_descriptions: s.media_descriptions.update(
                k,
                MediaDescriptionV {
                    media_line: s.media_descriptions[k].media_line,
                    lines: s.media_descriptions[k].lines.push(spec_classify_line(line)),
                },
            ),
        }
    }
}

/// `spec_parse_step` as a function value, for folds.
pub open spec fn parse_step_fn() -> spec_fn(SessionDescriptionV, Seq<u8>) -> SessionDescriptionV {
    |s: SessionDescriptionV, l: Seq<u8>| spec_parse_step(s, l)
}

/// The structure read from a line sequence, first line to last.
pub open spec fn spec_parse_lines(lines: Seq<Seq<u8>>) -> SessionDescriptionV {
    lines.fold_left(empty_sdp(), parse_step_fn())
}

/// Whether a document parses: it must have at least one line, and open with
/// a `v=` protocol-version line.
pub open spec fn spec_sdp_ok(input: Seq<u8>) -> bool {
    spec_split_lines(input).len() > 0 && is_version_line(spec_split_lines(input)[0])
}

/// Parses a session description out of its text.  Exactly the documents
/// that open with a `v=` line parse; anything else is `InvalidSDP`.
pub fn unmarshal_sdp(input: &Vec<u8>) -> (r: Result<SessionDescription, OfferWebSocketError>)
    ensures
        match r {
            Ok(sdp) => spec_sdp_ok(input@) && sdp@ == spec_parse_lines(spec_split_lines(input@)),
            Err(e) => !spec_sdp_ok(input@) && e is InvalidSDP,
        },
{
    let lines = split_lines(input);
    let ghost ldv = lines.deep_view();
    if lines.len() == 0 {
        return Err(OfferWebSocketError::InvalidSDP(String::from_str("failed to parse")));
    }
    if !(lines[0].len() >= 2 && lines[0][0] == 118 && lines[0][1] == 61) {
        assert(!is_version_line(ldv[0]));
        return Err(OfferWebSocketError::InvalidSDP(String::from_str("failed to parse")));
    }
    assert(is_version_line(ldv[0]));
    let mut sdp = SessionDescription { session_lines: Vec::new(), media_descriptions: Vec::new() };
    proof {
        assert(ldv.take(0) =~= Seq::<Seq<u8>>::empty());
        assert(sdp@ =~~= spec_parse_lines(ldv.take(0)));
    }
    let mut i: usize = 0;
    while i < lines.len()
        invariant
            i <= lines@.len(),
            ldv == lines.deep_view(),
            sdp@ == spec_parse_lines(ldv.take(i as int)),
        decreases lines@.len() - i,
    {
        let line = copy_bytes(&lines[i]);
        let ghost s0 = sdp@;
        assert(line@ == ldv[i as int]);
        let is_m = line.len() >= 2 && line[0] == 109 && line[1] == 61;
        if is_m {
            sdp.media_descriptions.push(MediaDescription { media_line: line, lines: Vec::new() });
            proof {
                assert(sdp@ =~~= spec_parse_step(s0, ldv[i as int]));
            }
        } else if sdp.media_descriptions.len() == 0 {
            sdp.session_lines.push(classify_line(line));
            proof {
                assert(sdp@ =~~= spec_parse_step(s0, ldv[i as int]));
            }
        } else {
            let mut last = match sdp.media_descriptions.pop() {
                Some(m) => m,
                None => {
                    proof {
                        assert(false);
                    }
                    MediaDescription { media_line: Vec::new(), lines: Vec::new() }
                },
            };
            let ghost lastv = last@;
            last.lines.push(classify_line(line));
            proof {
                assert(last@ =~~= MediaDescriptionV {
                    media_line: lastv.media_line,
                    lines: lastv.lines.push(spec_classify_line(ldv[i as int])),
                });
            }
            sdp.media_descriptions.push(last);
            proof {
                assert(sdp@ =~~= spec_parse_step(s0, ldv[i as int]));
            }
        }
        proof {
            assert(ldv.take(i + 1).drop_last() =~= ldv.take(i as int));
            assert(ldv.take(i + 1).last() == ldv[i as int]);
            assert(spec_parse_lines(ldv.take(i + 1)) == spec_parse_step(s0, ldv[i as int]));
        }
        i = i + 1;
    }
    proof {
        assert(ldv.take(lines@.len() as int) =~= ldv);
    }
    Ok(sdp)
}

// ---------------------------------------------------------------------------
// Structure to text
// ---------------------------------------------------------------------------

/// The CRLF line terminator.
pub open spec fn crlf() -> Seq<u8> {
    seq![13u8, 10u8]
}

/// The text of one line: attributes print as `a=key` or `a=key:value`,
/// other lines print verbatim.
pub open spec fn spec_marshal_line(l: SdpLineV) -> Seq<u8> {
    match l {
        SdpLineV::Attribute(a) => match a.value {
            Some(v) => seq![97u8, 61u8] + a.key + seq![58u8] + v,
            None => seq![97u8, 61u8] + a.key,
        },
        SdpLineV::Other(t) => t,
    }
}

/// The text of a line sequence, each line followed by CRLF.
pub open spec fn spec_marshal_lines(lines: Seq<SdpLineV>) -> Seq<u8>
    decreases lines.len(),
{
    if lines.len() == 0 {
        seq![]
    } else {
        spec_marshal_lines(lines.drop_last()) + spec_marshal_line(lines.last()) + crlf()
    }
}

/// The text of one media section: its `m=` line and then its lines.
pub open spec fn spec_marshal_media(m: MediaDescriptionV) -> Seq<u8> {
    m.media_line + crlf() + spec_marshal_lines(m.lines)
}

/// The text of the media sections in order.
pub open spec fn spec_marshal_medias(ms: Seq<MediaDescriptionV>) -> Seq<u8>
    decreases ms.len(),
{
    if ms.len() == 0 {
        seq![]
    } else {
        spec_marshal_medias(ms.drop_last()) + spec_marshal_media(ms.last())
    }
}

/// The text of a whole session description.
pub open spec fn spec_marshal(s: SessionDescriptionV) -> Seq<u8> {
    spec_marshal_lines(s.session_lines) + spec_marshal_medias(s.media_descriptions)
}

/// Appends the text of one line, CRLF-terminated.
fn push_line(out: &mut Vec<u8>, l: &SdpLine)
    ensures
        final(out)@ == old(out)@ + spec_marshal_line(l@) + crlf(),
{
    match l {
        SdpLine::Attribute(a) => {
            out.push(97);
            out.push(61);
            crate::bytes::append_bytes(out, &a.key);
            match &a.value {
                Some(v) => {
                    out.push(58);
                    crate::bytes::append_bytes(out, v);
                },
                None => {},
            }
        },
        SdpLine::Other(t) => {
            crate::bytes::append_bytes(out, t);
        },
    }
    out.push(13);
    out.push(10);
    assert(out@ =~= old(out)@ + spec_marshal_line(l@) + crlf());
}

/// Renders a session description back to text, each line CRLF-terminated.
pub fn marshal_sdp(sdp: &SessionDescription) -> (out: Vec<u8>)
    ensures
        out@ == spec_marshal(sdp@),
{
    let mut out: Vec<u8> = Vec::new();
    let ghost slv = sdp@.session_lines;
    proof {
        assert(slv.take(0) =~= Seq::<SdpLineV>::empty());
        assert(out@ =~= spec_marshal_lines(slv.take(0)));
    }
    let mut i: usize = 0;
    while i < sdp.session_lines.len()
        invariant
            i <= slv.len(),
            slv == sdp@.session_lines,
            out@ == spec_marshal_lines(slv.take(i as int)),
        decreases slv.len() - i,
    {
        push_line(&mut out, &sdp.session_lines[i]);
        proof {
            assert(slv.take(i + 1).drop_last() =~= slv.take(i as int));
            assert(slv.take(i + 1).last() == slv[i as int]);
        }
        i = i + 1;
    }
    proof {
        assert(slv.take(slv.len() as int) =~= slv);
    }
    let ghost mdv = sdp@.media_descriptions;
    proof {
        assert(mdv.take(0) =~= Seq::<MediaDescriptionV>::empty());
        assert(out@ =~= spec_marshal_lines(slv) + spec_marshal_medias(mdv.take(0)));
    }
    let mut m: usize = 0;
    while m < sdp.media_descriptions.len()
        invariant
            m <= mdv.len(),
            slv == sdp@.session_lines,
            mdv == sdp@.media_descriptions,
            out@ == spec_marshal_lines(slv) + spec_marshal_medias(mdv.take(m as int)),
        decreases mdv.len() - m,
    {
        crate::bytes::append_bytes(&mut out, &sdp.media_descriptions[m].media_line);
        out.push(13);
        out.push(10);
        let ghost mlv = mdv[m as int].lines;
        let ghost base = out@;
        proof {
            assert(mlv.take(0) =~= Seq::<SdpLineV>::empty());
            assert(out@ =~= base + spec_marshal_lines(mlv.take(0)));
        }
        let mut j: usize = 0;
        while j < sdp.media_descriptions[m].lines.len()
            invariant
                m < mdv.len(),
                j <= mlv.len(),
                mdv == sdp@.media_descriptions,
                mlv == mdv[m as int].lines,
                out@ == base + spec_marshal_lines(mlv.take(j as int)),
            decreases mlv.len() - j,
        {
            push_line(&mut out, &sdp.media_descriptions[m].lines[j]);
            proof {
                assert(mlv.take(j + 1).drop_last() =~= mlv.take(j as int));
                assert(mlv.take(j + 1).last() == mlv[j as int]);
            }
            j = j + 1;
        }
        proof {
            assert(mlv.take(mlv.len() as int) =~= mlv);
            assert(mdv.take(m + 1).drop_last() =~= mdv.take(m as int));
            assert(mdv.take(m + 1).last() == mdv[m as int]);
            assert(out@ =~= spec_marshal_lines(slv) + spec_marshal_medias(mdv.take(m + 1)));
        }
        m = m + 1;
    }
    proof {
        assert(mdv.take(mdv.len() as int) =~= mdv);
    }
    out
}

// ---------------------------------------------------------------------------
// Reading the gateway's configuration out of an offer
// ---------------------------------------------------------------------------

/// The value of the last `key` attribute (with a value) among these lines,
/// if any: when a key occurs more than once, the later occurrence wins.
pub open spec fn scan_lines(lines: Seq<SdpLineV>, key: Seq<u8>) -> Option<Seq<u8>>
    decreases lines.len(),
{
    if lines.len() == 0 {
        None
    } else {
        match lines.last() {
            SdpLineV::Attribute(a) => if a.key == key && a.value is Some {
                a.value
            } else {
                scan_lines(lines.drop_last(), key)
            },
            SdpLineV::Other(_) => scan_lines(lines.drop_last(), key),
        }
    }
}

/// The value of the last `key` attribute (with a value) over all media
/// sections, in document order.
pub open spec fn scan_media(media: Seq<MediaDescriptionV>, key: Seq<u8>) -> Option<Seq<u8>>
    decreases media.len(),
{
    if media.len() == 0 {
        None
    } else {
        match scan_lines(media.last().lines, key) {
            Some(v) => Some(v),
            None => scan_media(media.drop_last(), key),
        }
    }
}

/// A scan through some finished media sections and then a prefix of the
/// lines of the section after them.
pub open spec fn scan_partial(
    media: Seq<MediaDescriptionV>,
    lines: Seq<SdpLineV>,
    key: Seq<u8>,
) -> Option<Seq<u8>> {
    match scan_lines(lines, key) {
        Some(v) => Some(v),
        None => scan_media(media, key),
    }
}

/// The DTLS role an `a=setup` value names.  `active` and `passive` name
/// themselves; `actpass` — and, leniently, any unrecognized value — counts
/// as `ActivePassive`.
pub open spec fn mode_of_setup(v: Seq<u8>) -> ActiveMode {
    if v == val_active() {
        ActiveMode::Active
    } else if v == val_passive() {
        ActiveMode::Passive
    } else {
        ActiveMode::ActivePassive
    }
}

/// Reads the gateway's configuration out of an offer: the remote ICE
/// credentials and the `a=setup` role, each taken from the last occurrence
/// over the media sections; the caller's `fingerprint` is carried along.
/// A missing credential or a missing `setup` attribute is `InvalidSDP`.
pub fn parse_sdp_config(sdp: &SessionDescription, fingerprint: Vec<u8>) -> (r: Result<
    SdpConfig,
    OfferWebSocketError,
>)
    ensures
        ({
            let media = sdp@.media_descriptions;
            match r {
                Ok(cfg) => {
                    &&& scan_media(media, key_ice_ufrag()) == Some(cfg.remote_ice_username@)
                    &&& scan_media(media, key_ice_pwd()) == Some(cfg.remote_ice_password@)
                    &&& match scan_media(media, key_setup()) {
                        Some(v) => cfg.active_mode == mode_of_setup(v),
                        None => false,
                    }
                    &&& cfg.fingerprint@ == fingerprint@
                },
                Err(e) => {
                    &&& {
                        ||| scan_media(media, key_ice_ufrag()) is None
                        ||| scan_media(media, key_ice_pwd()) is None
                        ||| scan_media(media, key_setup()) is None
                    }
                    &&& e is InvalidSDP
                },
            }
        }),
{
    let ghost media = sdp@.media_descriptions;
    let key_uf = lit_ice_ufrag();
    let key_pw = lit_ice_pwd();
    let key_su = lit_setup();
    let mut ice_username: Option<Vec<u8>> = None;
    let mut ice_password: Option<Vec<u8>> = None;
    let mut setup_value: Option<Vec<u8>> = None;
    proof {
        assert(media.take(0) =~= Seq::<MediaDescriptionV>::empty());
    }
    let mut i: usize = 0;
    while i < sdp.media_descriptions.len()
        invariant
            i <= media.len(),
            media == sdp@.media_descriptions,
            key_uf@ == key_ice_ufrag(),
            key_pw@ == key_ice_pwd(),
            key_su@ == key_setup(),
            match ice_username {
                Some(v) => scan_media(media.take(i as int), key_ice_ufrag()) == Some(v@),
                None => scan_media(media.take(i as int), key_ice_ufrag()) is None,
            },
            match ice_password {
                Some(v) => scan_media(media.take(i as int), key_ice_pwd()) == Some(v@),
                None => scan_media(media.take(i as int), key_ice_pwd()) is None,
            },
            match setup_value {
                Some(v) => scan_media(media.take(i as int), key_setup()) == Some(v@),
                None => scan_media(media.take(i as int), key_setup()) is None,
            },
        decreases media.len() - i,
    {
        let ghost lines = media[i as int].lines;
        proof {
            assert(lines.take(0) =~= Seq::<SdpLineV>::empty());
        }
        let mut j: usize = 0;
        while j < sdp.media_descriptions[i].lines.len()
            invariant
                i < media.len(),
                j <= lines.len(),
                media == sdp@.media_descriptions,
                lines == media[i as int].lines,
                key_uf@ == key_ice_ufrag(),
                key_pw@ == key_ice_pwd(),
                key_su@ == key_setup(),
                match ice_username {
                    Some(v) => scan_partial(
                        media.take(i as int),
                        lines.take(j as int),
                        key_ice_ufrag(),
                    ) == Some(v@),
                    None => scan_partial(
                        media.take(i as int),
                        lines.take(j as int),
                        key_ice_ufrag(),
                    ) is None,
                },
                match ice_password {
                    Some(v) => scan_partial(
                        media.take(i as int),
                        lines.take(j as int),
                        key_ice_pwd(),
                    ) == Some(v@),
                    None => scan_partial(
                        media.take(i as int),
                        lines.take(j as int),
                        key_ice_pwd(),
                    ) is None,
                },
                match setup_value {
                    Some(v) => scan_partial(
                        media.take(i as int),
                        lines.take(j as int),
                        key_setup(),
                    ) == Some(v@),
                    None => scan_partial(
                        media.take(i as int),
                        lines.take(j as int),
                        key_setup(),
                    ) is None,
                },
            decreases lines.len() - j,
        {
            proof {
                assert(lines.take(j + 1).drop_last() =~= lines.take(j as int));
                assert(lines.take(j + 1).last() == lines[j as int]);
            }
            match &sdp.media_descriptions[i].lines[j] {
                SdpLine::Attribute(a) => {
                    match &a.value {
                        Some(v) => {
                            if crate::bytes::bytes_eq(&a.key, &key_uf) {
                                ice_username = Some(copy_bytes(v));
                            } else if crate::bytes::bytes_eq(&a.key, &key_pw) {
                                ice_password = Some(copy_bytes(v));
                            } else if crate::bytes::bytes_eq(&a.key, &key_su) {
                                setup_value = Some(copy_bytes(v));
                            }
                        },
                        None => {},
                    }
                },
                SdpLine::Other(_) => {},
            }
            j = j + 1;
        }
        proof {
            assert(lines.take(lines.len() as int) =~= lines);
            assert(media.take(i + 1).drop_last() =~= media.take(i as int));
            assert(media.take(i + 1).last() == media[i as int]);
        }
        i = i + 1;
    }
    proof {
        assert(media.take(media.len() as int) =~= media);
    }
    let username = match ice_username {
        Some(u) => u,
        None => {
            return Err(
                OfferWebSocketError::InvalidSDP(String::from_str("missing ice username")),
            );
        },
    };
    let password = match ice_password {
        Some(p) => p,
        None => {
            return Err(
                OfferWebSocketError::InvalidSDP(String::from_str("missing ice password")),
            );
        },
    };
    let setup = match setup_value {
        Some(v) => v,
        None => {
            return Err(OfferWebSocketError::InvalidSDP(String::from_str("no active mode found")));
        },
    };
    let lit_a = lit_active();
    let lit_p = lit_passive();
    let active_mode = if crate::bytes::bytes_eq(&setup, &lit_a) {
        ActiveMode::Active
    } else if crate::bytes::bytes_eq(&setup, &lit_p) {
        ActiveMode::Passive
    } else {
        ActiveMode::ActivePassive
    };
    Ok(
        SdpConfig {
            remote_ice_username: username,
            remote_ice_password: password,
            fingerprint,
            active_mode,
        },
    )
}

// ---------------------------------------------------------------------------
// Answer synthesis
// ---------------------------------------------------------------------------

/// The `a=setup` value the answer advertises: the complementary role.
/// `active` flips to `passive`; `passive` and `actpass` yield `active`.
pub open spec fn spec_answer_setup(mode: ActiveMode) -> Seq<u8> {
    match mode {
        ActiveMode::Active => val_passive(),
        ActiveMode::Passive => val_active(),
        ActiveMode::ActivePassive => val_active(),
    }
}

/// How one media-section attribute of the offer reads in the answer:
/// `sendonly`/`sendrecv` become `recvonly` (the gateway only receives);
/// the ICE credentials are replaced with the gateway's own; `fingerprint`
/// is replaced with `sha-256 <local fingerprint>`; `setup` advertises the
/// complementary role; everything else passes through unchanged.
pub open spec fn spec_answer_attr(
    a: AttributeV,
    local_username: Seq<u8>,
    local_password: Seq<u8>,
    mode: ActiveMode,
    fingerprint: Seq<u8>,
) -> AttributeV {
    if a.key == key_sendonly() || a.key == key_sendrecv() {
        AttributeV { key: key_recvonly(), value: None }
    } else if a.key == key_ice_ufrag() {
        AttributeV { key: a.key, value: Some(local_username) }
    } else if a.key == key_ice_pwd() {
        AttributeV { key: a.key, value: Some(local_password) }
    } else if a.key == key_fingerprint() {
        AttributeV { key: a.key, value: Some(val_sha256_prefix() + fingerprint) }
    } else if a.key == key_setup() {
        AttributeV { key: a.key, value: Some(spec_answer_setup(mode)) }
    } else {
        a
    }
}

/// How one media-section line of the offer reads in the answer.
pub open spec fn spec_answer_line(
    l: SdpLineV,
    local_username: Seq<u8>,
    local_password: Seq<u8>,
    mode: ActiveMode,
    fingerprint: Seq<u8>,
) -> SdpLineV {
    match l {
        SdpLineV::Attribute(a) => SdpLineV::Attribute(
            spec_answer_attr(a, local_username, local_password, mode, fingerprint),
        ),
        SdpLineV::Other(t) => SdpLineV::Other(t),
    }
}

/// How one media section of the offer reads in the answer: the `m=` line is
/// kept and each line is rewritten by `spec_answer_line`.
pub open spec fn spec_answer_media(
    m: MediaDescriptionV,
    local_username: Seq<u8>,
    local_password: Seq<u8>,
    mode: ActiveMode,
    fingerprint: Seq<u8>,
) -> MediaDescriptionV {
    MediaDescriptionV {
        media_line: m.media_line,
        lines: m.lines.map_values(
            |l: SdpLineV| spec_answer_line(l, local_username, local_password, mode, fingerprint),
        ),
    }
}

/// The whole answer: the offer's session part verbatim, and each media
/// section rewritten in place.
pub open spec fn spec_create_answer(
    offer: SessionDescriptionV,
    local_username: Seq<u8>,
    local_password: Seq<u8>,
    mode: ActiveMode,
    fingerprint: Seq<u8>,
) -> SessionDescriptionV {
    SessionDescriptionV {
        session_lines: offer.session_lines,
        media_descriptions: offer.media_descriptions.map_values(
            |m: MediaDescriptionV| spec_answer_media(
                m,
                local_username,
                local_password,
                mode,
                fingerprint,
            ),
        ),
    }
}

/// A fresh copy of an attribute.
fn copy_attribute(a: &Attribute) -> (r: Attribute)
    ensures
        r@ == a@,
{
    let value = match &a.value {
        Some(v) => Some(copy_bytes(v)),
        None => None,
    };
    Attribute { key: copy_bytes(&a.key), value }
}

/// A fresh copy of a line.
fn copy_line(l: &SdpLine) -> (r: SdpLine)
    ensures
        r@ == l@,
{
    match l {
        SdpLine::Attribute(a) => SdpLine::Attribute(copy_attribute(a)),
        SdpLine::Other(t) => SdpLine::Other(copy_bytes(t)),
    }
}

/// The answer's version of one attribute of the offer.
fn answer_attr(
    a: &Attribute,
    local_username: &Vec<u8>,
    local_password: &Vec<u8>,
    active_mode: &ActiveMode,
    fingerprint: &Vec<u8>,
) -> (r: Attribute)
    ensures
        r@ == spec_answer_attr(a@, local_username@, local_password@, *active_mode, fingerprint@),
{
    let key_so = lit_sendonly();
    let key_sr = lit_sendrecv();
    if crate::bytes::bytes_eq(&a.key, &key_so) || crate::bytes::bytes_eq(&a.key, &key_sr) {
        return Attribute { key: lit_recvonly(), value: None };
    }
    let key_uf = lit_ice_ufrag();
    if crate::bytes::bytes_eq(&a.key, &key_uf) {
        return Attribute { key: copy_bytes(&a.key), value: Some(copy_bytes(local_username)) };
    }
    let key_pw = lit_ice_pwd();
    if crate::bytes::bytes_eq(&a.key, &key_pw) {
        return Attribute { key: copy_bytes(&a.key), value: Some(copy_bytes(local_password)) };
    }
    let key_fp = lit_fingerprint();
    if crate::bytes::bytes_eq(&a.key, &key_fp) {
        let mut v = lit_sha256_prefix();
        crate::bytes::append_bytes(&mut v, fingerprint);
        return Attribute { key: copy_bytes(&a.key), value: Some(v) };
    }
    let key_su = lit_setup();
    if crate::bytes::bytes_eq(&a.key, &key_su) {
        let v = match active_mode {
            ActiveMode::Active => lit_passive(),
            ActiveMode::Passive => lit_active(),
            ActiveMode::ActivePassive => lit_active(),
        };
        return Attribute { key: copy_bytes(&a.key), value: Some(v) };
    }
    copy_attribute(a)
}

/// Synthesizes the answer to `offer`: the session part is carried over
/// verbatim, and in every media section `sendonly`/`sendrecv` become
/// `recvonly`, the ICE credentials become the gateway's local ones, the
/// fingerprint becomes `sha-256 <fingerprint>`, and `setup` advertises the
/// complementary role; all other lines pass through unchanged.
pub fn create_answer(
    offer: &SessionDescription,
    local_username: Vec<u8>,
    local_password: Vec<u8>,
    active_mode: &ActiveMode,
    fingerprint: &Vec<u8>,
) -> (ans: SessionDescription)
    ensures
        ans@ == spec_create_answer(
            offer@,
            local_username@,
            local_password@,
            *active_mode,
            fingerprint@,
        ),
{
    let ghost goal = spec_create_answer(
        offer@,
        local_username@,
        local_password@,
        *active_mode,
        fingerprint@,
    );
    let ghost slv = offer@.session_lines;
    let mut session_lines: Vec<SdpLine> = Vec::new();
    let mut i: usize = 0;
    while i < offer.session_lines.len()
        invariant
            i <= slv.len(),
            slv == offer@.session_lines,
            session_lines@.len() == i,
            forall|k: int| 0 <= k < i ==> #[trigger] session_lines@[k]@ == slv[k],
        decreases slv.len() - i,
    {
        session_lines.push(copy_line(&offer.session_lines[i]));
        i = i + 1;
    }
    let ghost mdv = offer@.media_descriptions;
    let mut media_descriptions: Vec<MediaDescription> = Vec::new();
    let mut m: usize = 0;
    while m < offer.media_descriptions.len()
        invariant
            m <= mdv.len(),
            mdv == offer@.media_descriptions,
            goal == spec_create_answer(
                offer@,
                local_username@,
                local_password@,
                *active_mode,
                fingerprint@,
            ),
            media_descriptions@.len() == m,
            forall|k: int|
                0 <= k < m ==> #[trigger] media_descriptions@[k]@ == goal.media_descriptions[k],
        decreases mdv.len() - m,
    {
        let ghost mlv = mdv[m as int].lines;
        let mut lines: Vec<SdpLine> = Vec::new();
        let mut j: usize = 0;
        while j < offer.media_descriptions[m].lines.len()
            invariant
                m < mdv.len(),
                j <= mlv.len(),
                mdv == offer@.media_descriptions,
                mlv == mdv[m as int].lines,
                lines@.len() == j,
                forall|k: int|
                    0 <= k < j ==> #[trigger] lines@[k]@ == spec_answer_line(
                        mlv[k],
                        local_username@,
                        local_password@,
                        *active_mode,
                        fingerprint@,
                    ),
            decreases mlv.len() - j,
        {
            let line = match &offer.media_descriptions[m].lines[j] {
                SdpLine::Attribute(a) => SdpLine::Attribute(
                    answer_attr(a, &local_username, &local_password, active_mode, fingerprint),
                ),
                SdpLine::Other(t) => SdpLine::Other(copy_bytes(t)),
            };
            lines.push(line);
            j = j + 1;
        }
        let section = MediaDescription {
            media_line: copy_bytes(&offer.media_descriptions[m].media_line),
            lines,
        };
        proof {
            assert(goal.media_descriptions[m as int] == spec_answer_media(
                mdv[m as int],
                local_username@,
                local_password@,
                *active_mode,
                fingerprint@,
            ));
            assert(section@.lines =~= goal.media_descriptions[m as int].lines);
            assert(section@ =~~= goal.media_descriptions[m as int]);
        }
        media_descriptions.push(section);
        m = m + 1;
    }
    let ans = SessionDescription { session_lines, media_descriptions };
    proof {
        assert(ans@.session_lines =~= goal.session_lines);
        assert(ans@.media_descriptions =~= goal.media_descriptions);
        assert(ans@ =~~= goal);
    }
    ans
}

/// How one line of the answer must read against its line of the offer:
/// `sendonly`/`sendrecv` became `recvonly`; `ice-ufrag` and `ice-pwd` carry
/// exactly the local credentials; `setup` advertises the complementary
/// role; a non-attribute line is unchanged.
pub open spec fn answer_line_ok(
    offer_line: SdpLineV,
    answer_line: SdpLineV,
    local_username: Seq<u8>,
    local_password: Seq<u8>,
    mode: ActiveMode,
) -> bool {
    match offer_line {
        SdpLineV::Attribute(a) => {
            &&& ((a.key == key_sendonly() || a.key == key_sendrecv()) ==> answer_line
                == SdpLineV::Attribute(AttributeV { key: key_recvonly(), value: None }))
            &&& (a.key == key_ice_ufrag() ==> answer_line == SdpLineV::Attribute(
                AttributeV { key: a.key, value: Some(local_username) },
            ))
            &&& (a.key == key_ice_pwd() ==> answer_line == SdpLineV::Attribute(
                AttributeV { key: a.key, value: Some(local_password) },
            ))
            &&& (a.key == key_setup() ==> answer_line == SdpLineV::Attribute(
                AttributeV { key: a.key, value: Some(spec_answer_setup(mode)) },
            ))
        },
        SdpLineV::Other(t) => answer_line == SdpLineV::Other(t),
    }
}

/// How one media section of the answer must read against its section of the
/// offer: same `m=` line, same number of lines, each line per
/// `answer_line_ok`.
pub open spec fn answer_section_ok(
    offer_section: MediaDescriptionV,
    answer_section: MediaDescriptionV,
    local_username: Seq<u8>,
    local_password: Seq<u8>,
    mode: ActiveMode,
) -> bool {
    &&& answer_section.media_line == offer_section.media_line
    &&& answer_section.lines.len() == offer_section.lines.len()
    &&& forall|j: int|
        0 <= j < offer_section.lines.len() ==> answer_line_ok(
            offer_section.lines[j],
            #[trigger] answer_section.lines[j],
            local_username,
            local_password,
            mode,
        )
}

/// SDP answer invariants: for any offer, the answer has exactly as many
/// media sections, in the same order and with the same `m=` lines and line
/// counts; every `sendonly`/`sendrecv` attribute becomes `recvonly`; every
/// `setup` attribute flips `active` to `passive` and both `passive` and
/// `actpass` to `active`; and the answer's `ice-ufrag`/`ice-pwd` values are
/// exactly the local credentials — never the offer's.
pub proof fn lemma_answer_invariants(
    offer: SessionDescriptionV,
    local_username: Seq<u8>,
    local_password: Seq<u8>,
    mode: ActiveMode,
    fingerprint: Seq<u8>,
)
    ensures
        spec_create_answer(
            offer,
            local_username,
            local_password,
            mode,
            fingerprint,
        ).media_descriptions.len() == offer.media_descriptions.len(),
        spec_create_answer(
            offer,
            local_username,
            local_password,
            mode,
            fingerprint,
        ).session_lines == offer.session_lines,
        forall|i: int|
            0 <= i < offer.media_descriptions.len() ==> answer_section_ok(
                offer.media_descriptions[i],
                #[trigger] spec_create_answer(
                    offer,
                    local_username,
                    local_password,
                    mode,
                    fingerprint,
                ).media_descriptions[i],
                local_username,
                local_password,
                mode,
            ),
{
    let ans = spec_create_answer(offer, local_username, local_password, mode, fingerprint);
    assert forall|i: int| 0 <= i < offer.media_descriptions.len() implies answer_section_ok(
        offer.media_descriptions[i],
        #[trigger] ans.media_descriptions[i],
        local_username,
        local_password,
        mode,
    ) by {
        let om = offer.media_descriptions[i];
        let am = ans.media_descriptions[i];
        assert(am == spec_answer_media(om, local_username, local_password, mode, fingerprint));
        assert forall|j: int| 0 <= j < om.lines.len() implies answer_line_ok(
            om.lines[j],
            #[trigger] am.lines[j],
            local_username,
            local_password,
            mode,
        ) by {
            assert(am.lines[j] == spec_answer_line(
                om.lines[j],
                local_username,
                local_password,
                mode,
                fingerprint,
            ));
        }
    }
}

// ---------------------------------------------------------------------------
// The text round trip
// ---------------------------------------------------------------------------

/// Text with no line terminator in it.
pub open spec fn clean_text(t: Seq<u8>) -> bool {
    forall|i: int| 0 <= i < t.len() ==> t[i] != 10 && t[i] != 13
}

/// A line that survives the text round trip: an attribute whose key holds
/// no `:` separator and whose parts hold no line terminator, or a verbatim
/// line that is nonempty, holds no line terminator, and does not itself
/// read as an attribute or media line.
pub open spec fn wf_line(l: SdpLineV) -> bool {
    match l {
        SdpLineV::Attribute(a) => {
            &&& clean_text(a.key)
            &&& (forall|i: int| 0 <= i < a.key.len() ==> a.key[i] != 58)
            &&& (match a.value {
                Some(v) => clean_text(v),
                None => true,
            })
        },
        SdpLineV::Other(t) => {
            &&& t.len() > 0
            &&& clean_text(t)
            &&& !is_attribute_line(t)
            &&& !is_media_line(t)
        },
    }
}

/// A media section that survives the text round trip.
pub open spec fn wf_media(m: MediaDescriptionV) -> bool {
    &&& is_media_line(m.media_line)
    &&& clean_text(m.media_line)
    &&& (forall|j: int| 0 <= j < m.lines.len() ==> wf_line(#[trigger] m.lines[j]))
}

/// A session description that survives the text round trip.
pub open spec fn wf_sdp(s: SessionDescriptionV) -> bool {
    &&& (forall|i: int|
        0 <= i < s.session_lines.len() ==> wf_line(#[trigger] s.session_lines[i]))
    &&& (forall|i: int|
        0 <= i < s.media_descriptions.len() ==> wf_media(#[trigger] s.media_descriptions[i]))
}

/// `spec_marshal_line` as a function value, for maps.
pub open spec fn marshal_line_fn() -> spec_fn(SdpLineV) -> Seq<u8> {
    |l: SdpLineV| spec_marshal_line(l)
}

/// Classifying a printed line reads back the line itself; the printed line
/// is nonempty, free of line terminators, and no media line.
pub proof fn lemma_classify_marshal_line(l: SdpLineV)
    requires
        wf_line(l),
    ensures
        spec_classify_line(spec_marshal_line(l)) == l,
        spec_marshal_line(l).len() > 0,
        clean_text(spec_marshal_line(l)),
        !is_media_line(spec_marshal_line(l)),
{
    let line = spec_marshal_line(l);
    match l {
        SdpLineV::Attribute(a) => {
            match a.value {
                Some(v) => {
                    assert(line =~= seq![97u8, 61u8] + a.key + seq![58u8] + v);
                    let rest = line.skip(2);
                    assert(rest =~= a.key + seq![58u8] + v);
                    assert(rest[a.key.len() as int] == 58);
                    assert(forall|j: int| 0 <= j < a.key.len() ==> rest[j] == a.key[j]);
                    lemma_find_byte_at(rest, 58, a.key.len() as int);
                    assert(rest.take(a.key.len() as int) =~= a.key);
                    assert(rest.skip(a.key.len() as int + 1) =~= v);
                    assert(spec_classify_line(line) =~~= l);
                },
                None => {
                    assert(line =~= seq![97u8, 61u8] + a.key);
                    let rest = line.skip(2);
                    assert(rest =~= a.key);
                    lemma_find_byte_absent(rest, 58);
                    assert(spec_classify_line(line) =~~= l);
                },
            }
        },
        SdpLineV::Other(_) => {},
    }
}

/// Splitting peels one printed line off the front of the text.
pub proof fn lemma_split_peel(l: Seq<u8>, rest: Seq<u8>)
    requires
        l.len() > 0,
        clean_text(l),
    ensures
        spec_split_lines(l + crlf() + rest) == seq![l] + spec_split_lines(rest),
{
    let s = l + crlf() + rest;
    assert(s[l.len() as int] == 13);
    assert(s[l.len() as int + 1] == 10);
    assert forall|j: int| 0 <= j < l.len() + 1 implies s[j] != 10 by {
        if j < l.len() {
            assert(s[j] == l[j]);
        }
    }
    lemma_find_byte_at(s, 10, l.len() as int + 1);
    assert(s.take(l.len() as int + 1) =~= l + seq![13u8]);
    assert((l + seq![13u8]).last() == 13);
    assert((l + seq![13u8]).drop_last() =~= l);
    assert(trim_cr(s.take(l.len() as int + 1)) == l);
    assert(s.skip(l.len() as int + 2) =~= rest);
    assert(spec_split_lines(s) == seq![l] + spec_split_lines(rest));
}

/// Splitting the printed text of a line block, followed by anything, yields
/// the printed lines and then the split of what follows.
pub proof fn lemma_split_lines_block(lines: Seq<SdpLineV>, rest: Seq<u8>)
    requires
        forall|j: int| 0 <= j < lines.len() ==> wf_line(#[trigger] lines[j]),
    ensures
        spec_split_lines(spec_marshal_lines(lines) + rest) == lines.map_values(marshal_line_fn())
            + spec_split_lines(rest),
    decreases lines.len(),
{
    if lines.len() == 0 {
        assert(spec_marshal_lines(lines) + rest =~= rest);
        assert(lines.map_values(marshal_line_fn()) + spec_split_lines(rest) =~= spec_split_lines(
            rest,
        ));
    } else {
        let front = lines.drop_last();
        let last = lines.last();
        assert(forall|j: int| 0 <= j < front.len() ==> front[j] == lines[j]);
        lemma_classify_marshal_line(last);
        let tail = spec_marshal_line(last) + crlf() + rest;
        assert(spec_marshal_lines(lines) + rest =~= spec_marshal_lines(front) + tail);
        lemma_split_lines_block(front, tail);
        lemma_split_peel(spec_marshal_line(last), rest);
        assert(front.map_values(marshal_line_fn()) + (seq![spec_marshal_line(last)]
            + spec_split_lines(rest)) =~= lines.map_values(marshal_line_fn()) + spec_split_lines(
            rest,
        ));
    }
}

/// The printed lines of one media section: its `m=` line and then its lines.
pub open spec fn section_lines(m: MediaDescriptionV) -> Seq<Seq<u8>> {
    seq![m.media_line] + m.lines.map_values(marshal_line_fn())
}

/// The printed lines of the media sections in order.
pub open spec fn medias_lines(ms: Seq<MediaDescriptionV>) -> Seq<Seq<u8>>
    decreases ms.len(),
{
    if ms.len() == 0 {
        seq![]
    } else {
        medias_lines(ms.drop_last()) + section_lines(ms.last())
    }
}

/// Splitting the printed text of the media sections, followed by anything,
/// yields their printed lines and then the split of what follows.
pub proof fn lemma_split_medias_block(ms: Seq<MediaDescriptionV>, rest: Seq<u8>)
    requires
        forall|i: int| 0 <= i < ms.len() ==> wf_media(#[trigger] ms[i]),
    ensures
        spec_split_lines(spec_marshal_medias(ms) + rest) == medias_lines(ms) + spec_split_lines(
            rest,
        ),
    decreases ms.len(),
{
    if ms.len() == 0 {
        assert(spec_marshal_medias(ms) + rest =~= rest);
        assert(medias_lines(ms) + spec_split_lines(rest) =~= spec_split_lines(rest));
    } else {
        let front = ms.drop_last();
        let last = ms.last();
        assert(forall|i: int| 0 <= i < front.len() ==> front[i] == ms[i]);
        let tail = spec_marshal_media(last) + rest;
        assert(spec_marshal_medias(ms) + rest =~= spec_marshal_medias(front) + tail);
        lemma_split_medias_block(front, tail);
        assert(tail =~= last.media_line + crlf() + (spec_marshal_lines(last.lines) + rest));
        lemma_split_peel(last.media_line, spec_marshal_lines(last.lines) + rest);
        lemma_split_lines_block(last.lines, rest);
        assert(medias_lines(front) + (seq![last.media_line] + (last.lines.map_values(
            marshal_line_fn(),
        ) + spec_split_lines(rest))) =~= medias_lines(ms) + spec_split_lines(rest));
    }
}

/// All printed lines of a session description, in document order.
pub open spec fn document_lines(s: SessionDescriptionV) -> Seq<Seq<u8>> {
    s.session_lines.map_values(marshal_line_fn()) + medias_lines(s.media_descriptions)
}

/// Splitting the printed text of a well-formed session description yields
/// exactly its printed lines.
pub proof fn lemma_split_marshal(s: SessionDescriptionV)
    requires
        wf_sdp(s),
    ensures
        spec_split_lines(spec_marshal(s)) == document_lines(s),
{
    lemma_split_lines_block(s.session_lines, spec_marshal_medias(s.media_descriptions));
    lemma_split_medias_block(s.media_descriptions, Seq::<u8>::empty());
    assert(spec_marshal_medias(s.media_descriptions) + Seq::<u8>::empty()
        =~= spec_marshal_medias(s.media_descriptions));
    assert(spec_split_lines(Seq::<u8>::empty()) =~= Seq::<Seq<u8>>::empty());
    assert(medias_lines(s.media_descriptions) + Seq::<Seq<u8>>::empty() =~= medias_lines(
        s.media_descriptions,
    ));
}

/// A fold over concatenated line sequences is the second fold started from
/// the first's result.
pub proof fn lemma_fold_concat<A, B>(a: Seq<A>, b: Seq<A>, init: B, f: spec_fn(B, A) -> B)
    ensures
        (a + b).fold_left(init, f) == b.fold_left(a.fold_left(init, f), f),
    decreases b.len(),
{
    if b.len() == 0 {
        assert(a + b =~= a);
    } else {
        lemma_fold_concat(a, b.drop_last(), init, f);
        assert((a + b).drop_last() =~= a + b.drop_last());
        assert((a + b).last() == b.last());
    }
}

/// Parsing the printed lines of a line block, while no media section is
/// open, appends exactly those lines to the session part.
pub proof fn lemma_parse_plain_lines(lines: Seq<SdpLineV>, acc: SessionDescriptionV)
    requires
        forall|j: int| 0 <= j < lines.len() ==> wf_line(#[trigger] lines[j]),
        acc.media_descriptions.len() == 0,
    ensures
        lines.map_values(marshal_line_fn()).fold_left(acc, parse_step_fn())
            == (SessionDescriptionV {
            session_lines: acc.session_lines + lines,
            media_descriptions: acc.media_descriptions,
        }),
    decreases lines.len(),
{
    if lines.len() == 0 {
        assert(lines.map_values(marshal_line_fn()) =~= Seq::<Seq<u8>>::empty());
        assert(acc.session_lines + lines =~= acc.session_lines);
        assert(lines.map_values(marshal_line_fn()).fold_left(acc, parse_step_fn())
            =~~= (SessionDescriptionV {
            session_lines: acc.session_lines + lines,
            media_descriptions: acc.media_descriptions,
        }));
    } else {
        let front = lines.drop_last();
        let last = lines.last();
        assert(forall|j: int| 0 <= j < front.len() ==> front[j] == lines[j]);
        lemma_parse_plain_lines(front, acc);
        lemma_classify_marshal_line(last);
        let mapped = lines.map_values(marshal_line_fn());
        assert(mapped.drop_last() =~= front.map_values(marshal_line_fn()));
        assert(mapped.last() == spec_marshal_line(last));
        let mid = front.map_values(marshal_line_fn()).fold_left(acc, parse_step_fn());
        assert(mapped.fold_left(acc, parse_step_fn()) == spec_parse_step(
            mid,
            spec_marshal_line(last),
        ));
        assert(acc.session_lines + front =~= (acc.session_lines + lines).drop_last());
        assert(mapped.fold_left(acc, parse_step_fn()) =~~= (SessionDescriptionV {
            session_lines: acc.session_lines + lines,
            media_descriptions: acc.media_descriptions,
        }));
    }
}

/// Parsing the printed lines of a line block, while a media section is
/// open, appends exactly those lines to the newest section.
pub proof fn lemma_parse_section_lines(lines: Seq<SdpLineV>, acc: SessionDescriptionV)
    requires
        forall|j: int| 0 <= j < lines.len() ==> wf_line(#[trigger] lines[j]),
        acc.media_descriptions.len() > 0,
    ensures
        ({
            let k = acc.media_descriptions.len() - 1;
            lines.map_values(marshal_line_fn()).fold_left(acc, parse_step_fn())
                == (SessionDescriptionV {
                session_lines: acc.session_lines,
                media_descriptions: acc.media_descriptions.update(
                    k,
                    MediaDescriptionV {
                        media_line: acc.media_descriptions[k].media_line,
                        lines: acc.media_descriptions[k].lines + lines,
                    },
                ),
            })
        }),
    decreases lines.len(),
{
    let k = acc.media_descriptions.len() - 1;
    let goal = SessionDescriptionV {
        session_lines: acc.session_lines,
        media_descriptions: acc.media_descriptions.update(
            k,
            MediaDescriptionV {
                media_line: acc.media_descriptions[k].media_line,
                lines: acc.media_descriptions[k].lines + lines,
            },
        ),
    };
    if lines.len() == 0 {
        assert(lines.map_values(marshal_line_fn()) =~= Seq::<Seq<u8>>::empty());
        assert(acc.media_descriptions[k].lines + lines =~= acc.media_descriptions[k].lines);
        assert(acc.media_descriptions.update(
            k,
            MediaDescriptionV {
                media_line: acc.media_descriptions[k].media_line,
                lines: acc.media_descriptions[k].lines + lines,
            },
        ) =~~= acc.media_descriptions);
        assert(lines.map_values(marshal_line_fn()).fold_left(acc, parse_step_fn()) =~~= goal);
    } else {
        let front = lines.drop_last();
        let last = lines.last();
        assert(forall|j: int| 0 <= j < front.len() ==> front[j] == lines[j]);
        lemma_parse_section_lines(front, acc);
        lemma_classify_marshal_line(last);
        let mapped = lines.map_values(marshal_line_fn());
        assert(mapped.drop_last() =~= front.map_values(marshal_line_fn()));
        assert(mapped.last() == spec_marshal_line(last));
        let mid = front.map_values(marshal_line_fn()).fold_left(acc, parse_step_fn());
        assert(mapped.fold_left(acc, parse_step_fn()) == spec_parse_step(
            mid,
            spec_marshal_line(last),
        ));
        assert(mid.media_descriptions.len() == acc.media_descriptions.len());
        assert(acc.media_descriptions[k].lines + front =~= (acc.media_descriptions[k].lines
            + lines).drop_last());
        assert((acc.media_descriptions[k].lines + front).push(last)
            =~= acc.media_descriptions[k].lines + lines);
        assert(spec_parse_step(mid, spec_marshal_line(last)).media_descriptions
            =~~= goal.media_descriptions);
        assert(mapped.fold_left(acc, parse_step_fn()) =~~= goal);
    }
}

/// Parsing the printed lines of the media sections appends exactly those
/// sections, whatever was built before them.
pub proof fn lemma_parse_sections(ms: Seq<MediaDescriptionV>, acc: SessionDescriptionV)
    requires
        forall|i: int| 0 <= i < ms.len() ==> wf_media(#[trigger] ms[i]),
    ensures
        medias_lines(ms).fold_left(acc, parse_step_fn()) == (SessionDescriptionV {
            session_lines: acc.session_lines,
            media_descriptions: acc.media_descriptions + ms,
        }),
    decreases ms.len(),
{
    if ms.len() == 0 {
        assert(acc.media_descriptions + ms =~= acc.media_descriptions);
        assert(medias_lines(ms).fold_left(acc, parse_step_fn()) =~~= (SessionDescriptionV {
            session_lines: acc.session_lines,
            media_descriptions: acc.media_descriptions + ms,
        }));
    } else {
        let front = ms.drop_last();
        let last = ms.last();
        assert(forall|i: int| 0 <= i < front.len() ==> front[i] == ms[i]);
        lemma_fold_concat(medias_lines(front), section_lines(last), acc, parse_step_fn());
        lemma_parse_sections(front, acc);
        let mid0 = SessionDescriptionV {
            session_lines: acc.session_lines,
            media_descriptions: acc.media_descriptions + front,
        };
        lemma_fold_concat(
            seq![last.media_line],
            last.lines.map_values(marshal_line_fn()),
            mid0,
            parse_step_fn(),
        );
        assert(seq![last.media_line].drop_last() =~= Seq::<Seq<u8>>::empty());
        assert(Seq::<Seq<u8>>::empty().fold_left(mid0, parse_step_fn()) == mid0);
        assert(seq![last.media_line].fold_left(mid0, parse_step_fn()) == spec_parse_step(
            mid0,
            last.media_line,
        ));
        let mid1 = spec_parse_step(mid0, last.media_line);
        assert(mid1.media_descriptions.len() > 0);
        lemma_parse_section_lines(last.lines, mid1);
        let out = last.lines.map_values(marshal_line_fn()).fold_left(mid1, parse_step_fn());
        let k = mid1.media_descriptions.len() - 1;
        assert(mid1.media_descriptions[k].lines + last.lines =~= last.lines);
        assert(out.media_descriptions[k] =~~= last);
        assert(out.media_descriptions =~~= acc.media_descriptions + ms);
        assert(medias_lines(ms).fold_left(acc, parse_step_fn()) =~~= (SessionDescriptionV {
            session_lines: acc.session_lines,
            media_descriptions: acc.media_descriptions + ms,
        }));
    }
}

/// The text round trip: printing a well-formed session description and
/// parsing the text back yields the description itself.
pub proof fn lemma_marshal_parse_round_trip(s: SessionDescriptionV)
    requires
        wf_sdp(s),
    ensures
        spec_parse_lines(spec_split_lines(spec_marshal(s))) == s,
{
    lemma_split_marshal(s);
    lemma_fold_concat(
        s.session_lines.map_values(marshal_line_fn()),
        medias_lines(s.media_descriptions),
        empty_sdp(),
        parse_step_fn(),
    );
    lemma_parse_plain_lines(s.session_lines, empty_sdp());
    let mid = SessionDescriptionV {
        session_lines: empty_sdp().session_lines + s.session_lines,
        media_descriptions: empty_sdp().media_descriptions,
    };
    lemma_parse_sections(s.media_descriptions, mid);
    assert(empty_sdp().session_lines + s.session_lines =~= s.session_lines);
    assert(empty_sdp().media_descriptions + s.media_descriptions =~= s.media_descriptions);
    assert(spec_parse_lines(spec_split_lines(spec_marshal(s))) =~~= s);
}

} // verus!

//! The optional mobile endpoint: where it may listen, which private
//! addresses it offers, how an upload is answered, and how a mobile
//! transcript is polished.
use crate::numeric::{all_digits, decimal, digits_value, parse_u32, push_decimal};
use crate::request::{ContextProfileSummary, CorrectionRule, PolishRequest, VoiceIntent};
use crate::stt_engine::split_on;
use crate::text::{chars_of, eq_lit, push_chars, trim, trim_chars};
use vstd::prelude::*;

verus! {

/// Where the mobile endpoint listens.
pub struct Config {
    pub enabled: bool,
    pub address: String,
    pub port: u16,
}

impl Default for Config {
    fn default() -> (r: Self)
        ensures
            !r.enabled,
            r.address@ == "127.0.0.1"@,
            r.port == 8787,
    {
        Config { enabled: false, address: String::from_str("127.0.0.1"), port: 8787 }
    }
}

/// What the settings screen shows.
pub struct Status {
    pub config: Config,
    pub running: bool,
    pub warning: Option<String>,
    pub addresses: Vec<String>,
}

/// A dictation result sent back to the phone.
pub struct ResultText {
    pub raw_text: String,
    pub polished_text: String,
    pub warning: Option<String>,
}

/// A valid octet: one to three ASCII digits, no leading zero unless it is
/// the single digit 0, at most 255 (how `Ipv4Addr` parses).
pub open spec fn octet_ok(p: Seq<char>) -> bool {
    &&& 1 <= p.len() <= 3
    &&& all_digits(p)
    &&& (p.len() == 1 || p[0] != '0')
    &&& digits_value(p) <= 255
}

/// `Ipv4Addr` parsing: exactly four valid octets separated by dots.
pub open spec fn ipv4_of(s: Seq<char>) -> Option<(u8, u8, u8, u8)> {
    let ps = split_on(s, '.');
    if ps.len() == 4 && octet_ok(ps[0]) && octet_ok(ps[1]) && octet_ok(ps[2]) && octet_ok(ps[3]) {
        Some(
            (
                digits_value(ps[0]) as u8,
                digits_value(ps[1]) as u8,
                digits_value(ps[2]) as u8,
                digits_value(ps[3]) as u8,
            ),
        )
    } else {
        None
    }
}

fn octet(p: &Vec<char>) -> (r: Option<u8>)
    ensures
        r matches Some(v) ==> octet_ok(p@) && v as nat == digits_value(p@),
        r is None ==> !octet_ok(p@),
{
    if p.len() < 1 || p.len() > 3 {
        return None;
    }
    if p.len() > 1 && p[0] == '0' {
        return None;
    }
    if p[0] == '+' {
        proof {
            assert(!crate::numeric::is_digit(p@[0]));
        }
        return None;
    }
    match parse_u32(p.as_slice()) {
        Some(v) => {
            if v > 255 {
                return None;
            }
            Some(v as u8)
        },
        None => None,
    }
}

/// Parses a dotted-decimal IPv4 address.
pub fn parse_ipv4(s: &str) -> (r: Option<(u8, u8, u8, u8)>)
    ensures
        r == ipv4_of(s@),
{
    let c = chars_of(s);
    let mut pieces: Vec<Vec<char>> = Vec::new();
    let mut cur: Vec<char> = Vec::new();
    let mut i: usize = 0;
    while i < c.len()
        invariant
            i <= c@.len(),
            pieces@.len() + 1 == split_on(c@.take(i as int), '.').len(),
            forall|k: int|
                0 <= k < pieces@.len() ==> #[trigger] pieces@[k]@ == split_on(
                    c@.take(i as int),
                    '.',
                )[k],
            cur@ == split_on(c@.take(i as int), '.').last(),
        decreases c@.len() - i,
    {
        proof {
            assert(c@.take(i + 1).drop_last() =~= c@.take(i as int));
            crate::stt_engine::lemma_split_nonempty(c@.take(i as int), '.');
        }
        if c[i] == '.' {
            pieces.push(cur);
            cur = Vec::new();
            proof {
                assert(cur@ =~= Seq::<char>::empty());
            }
        } else {
            cur.push(c[i]);
        }
        i = i + 1;
    }
    assert(c@.take(c@.len() as int) =~= c@);
    pieces.push(cur);
    if pieces.len() != 4 {
        return None;
    }
    let a = octet(&pieces[0]);
    let b = octet(&pieces[1]);
    let d = octet(&pieces[2]);
    let e = octet(&pieces[3]);
    match (a, b, d, e) {
        (Some(a), Some(b), Some(d), Some(e)) => Some((a, b, d, e)),
        _ => None,
    }
}

/// Private (10/8, 172.16/12, 192.168/16) or loopback (127/8) addresses.
pub open spec fn is_private(ip: (u8, u8, u8, u8)) -> bool {
    ||| ip.0 == 10
    ||| (ip.0 == 172 && 16 <= ip.1 <= 31)
    ||| (ip.0 == 192 && ip.1 == 168)
    ||| ip.0 == 127
}

pub fn private(ip: (u8, u8, u8, u8)) -> (r: bool)
    ensures
        r == is_private(ip),
{
    ip.0 == 10 || (ip.0 == 172 && 16 <= ip.1 && ip.1 <= 31) || (ip.0 == 192 && ip.1 == 168)
        || ip.0 == 127
}

pub open spec fn address_message() -> Seq<char> {
    "내부 IPv4 주소를 입력하세요."@
}

pub open spec fn binding_message() -> Seq<char> {
    "특정 내부 IPv4 주소와 1~65535 포트가 필요합니다. 전체 인터페이스 주소는 사용할 수 없습니다."@
}

/// The socket to listen on: an explicit private or loopback IPv4 address
/// and a non-zero port. Every other address is refused, the wildcard
/// address included.
pub fn socket(config: &Config) -> (r: Result<((u8, u8, u8, u8), u16), String>)
    ensures
        ipv4_of(config.address@) is None ==> (r matches Err(m) && m@ == address_message()),
        ipv4_of(config.address@) matches Some(ip) ==> if is_private(ip) && config.port != 0 {
            r == Ok::<((u8, u8, u8, u8), u16), String>((ip, config.port))
        } else {
            r matches Err(m) && m@ == binding_message()
        },
{
    match parse_ipv4(config.address.as_str()) {
        None => Err(String::from_str("내부 IPv4 주소를 입력하세요.")),
        Some(ip) => {
            if !private(ip) || config.port == 0 {
                return Err(
                    String::from_str(
                        "특정 내부 IPv4 주소와 1~65535 포트가 필요합니다. 전체 인터페이스 주소는 사용할 수 없습니다.",
                    ),
                );
            }
            Ok((ip, config.port))
        },
    }
}

/// What applying a configuration does to the listener.
#[derive(Clone, Copy, Debug, PartialEq, Eq, Structural)]
pub enum ApplyPlan {
    /// The same address is already being served.
    Keep,
    /// Bind the new socket, then replace the running listener.
    Rebind,
    /// Stop any running listener.
    Stop,
}

/// A valid enabled configuration for the address and port already served
/// by a live listener keeps it; another enabled one rebinds (binding
/// first, so a bad replacement leaves the old listener running); a
/// disabled one stops the listener.
pub fn apply_plan(config: &Config, current: &Config, alive: bool) -> (r: ApplyPlan)
    ensures
        !config.enabled ==> r == ApplyPlan::Stop,
        config.enabled && current.address@ == config.address@ && current.port == config.port
            && alive ==> r == ApplyPlan::Keep,
        config.enabled && !(current.address@ == config.address@ && current.port == config.port
            && alive) ==> r == ApplyPlan::Rebind,
{
    if !config.enabled {
        return ApplyPlan::Stop;
    }
    let same = eq_lit(&chars_of(current.address.as_str()), config.address.as_str());
    if same && current.port == config.port && alive {
        ApplyPlan::Keep
    } else {
        ApplyPlan::Rebind
    }
}

/// The dotted-decimal text of an address.
pub open spec fn dotted(ip: (u8, u8, u8, u8)) -> Seq<char> {
    decimal(ip.0 as nat) + "."@ + decimal(ip.1 as nat) + "."@ + decimal(ip.2 as nat) + "."@
        + decimal(ip.3 as nat)
}

pub fn format_ipv4(ip: (u8, u8, u8, u8)) -> (r: String)
    ensures
        r@ == dotted(ip),
{
    let mut s = String::new();
    push_decimal(&mut s, ip.0 as u64);
    push_chars(&mut s, &chars_of("."));
    push_decimal(&mut s, ip.1 as u64);
    push_chars(&mut s, &chars_of("."));
    push_decimal(&mut s, ip.2 as u64);
    push_chars(&mut s, &chars_of("."));
    push_decimal(&mut s, ip.3 as u64);
    assert(s@ =~= dotted(ip));
    s
}

/// Lexicographic order of character sequences (how strings sort).
pub open spec fn lex_lt(a: Seq<char>, b: Seq<char>) -> bool
    decreases a.len(),
{
    if a.len() == 0 {
        b.len() > 0
    } else if b.len() == 0 {
        false
    } else if a[0] != b[0] {
        a[0] < b[0]
    } else {
        lex_lt(a.drop_first(), b.drop_first())
    }
}

proof fn lemma_lex_trans(a: Seq<char>, b: Seq<char>, c: Seq<char>)
    requires
        lex_lt(a, b),
        lex_lt(b, c),
    ensures
        lex_lt(a, c),
    decreases a.len(),
{
    if a.len() > 0 && b.len() > 0 && c.len() > 0 && a[0] == b[0] && b[0] == c[0] {
        lemma_lex_trans(a.drop_first(), b.drop_first(), c.drop_first());
    }
}

proof fn lemma_lex_total(a: Seq<char>, b: Seq<char>)
    ensures
        a == b || lex_lt(a, b) || lex_lt(b, a),
        !(lex_lt(a, b) && lex_lt(b, a)),
        !lex_lt(a, a),
    decreases a.len(),
{
    if a.len() > 0 && b.len() > 0 && a[0] == b[0] {
        lemma_lex_total(a.drop_first(), b.drop_first());
        if a.drop_first() == b.drop_first() {
            assert(a =~= seq![a[0]] + a.drop_first());
            assert(b =~= seq![b[0]] + b.drop_first());
        }
    }
    if a.len() > 0 {
        lemma_lex_total(a.drop_first(), a.drop_first());
    }
}

fn lex_less(a: &[char], b: &[char]) -> (r: bool)
    ensures
        r == lex_lt(a@, b@),
{
    let mut i: usize = 0;
    assert(a@.skip(0) =~= a@);
    assert(b@.skip(0) =~= b@);
    while i < a.len() && i < b.len() && a[i] == b[i]
        invariant
            i <= a@.len(),
            i <= b@.len(),
            lex_lt(a@.skip(i as int), b@.skip(i as int)) == lex_lt(a@, b@),
        decreases a@.len() - i,
    {
        proof {
            assert(a@.skip(i as int).drop_first() =~= a@.skip(i + 1));
            assert(b@.skip(i as int).drop_first() =~= b@.skip(i + 1));
        }
        i = i + 1;
    }
    if i == a.len() {
        i < b.len()
    } else if i == b.len() {
        false
    } else {
        a[i] < b[i]
    }
}

/// Strictly increasing, hence without repeats.
pub open spec fn strictly_sorted(v: Seq<Seq<char>>) -> bool {
    forall|i: int, j: int| 0 <= i < j < v.len() ==> lex_lt(#[trigger] v[i], #[trigger] v[j])
}

pub open spec fn text_set(v: Seq<String>) -> Set<Seq<char>> {
    Set::new(|t: Seq<char>| exists|i: int| 0 <= i < v.len() && #[trigger] v[i]@ == t)
}

pub open spec fn views(v: Seq<String>) -> Seq<Seq<char>> {
    v.map_values(|s: String| s@)
}

/// The private addresses among `ips` as text, sorted and without repeats.
pub open spec fn offered(ips: Seq<(u8, u8, u8, u8)>) -> Set<Seq<char>> {
    Set::new(
        |t: Seq<char>| exists|i: int| 0 <= i < ips.len() && is_private(ips[i]) && #[trigger] dotted(ips[i]) == t,
    )
}

/// The addresses offered to the phone: the private and loopback IPv4
/// addresses of this machine's interfaces, as text, sorted and deduplicated.
pub fn private_addresses(ips: &Vec<(u8, u8, u8, u8)>) -> (r: Vec<String>)
    ensures
        strictly_sorted(views(r@)),
        text_set(r@) == offered(ips@),
{
    let mut out: Vec<String> = Vec::new();
    let mut n: usize = 0;
    while n < ips.len()
        invariant
            n <= ips@.len(),
            strictly_sorted(views(out@)),
            text_set(out@) == offered(ips@.take(n as int)),
        decreases ips@.len() - n,
    {
        let ghost before = out@;
        proof {
            assert forall|t: Seq<char>| #[trigger] offered(ips@.take(n + 1)).contains(t) == (
            offered(ips@.take(n as int)).contains(t) || (is_private(ips@[n as int]) && dotted(
                ips@[n as int],
            ) == t)) by {
                if offered(ips@.take(n + 1)).contains(t) {
                    let i = choose|i: int|
                        0 <= i < n + 1 && is_private(ips@.take(n + 1)[i]) && #[trigger] dotted(
                            ips@.take(n + 1)[i],
                        ) == t;
                    if i < n {
                        assert(ips@.take(n as int)[i] == ips@.take(n + 1)[i]);
                    }
                }
                if offered(ips@.take(n as int)).contains(t) {
                    let i = choose|i: int|
                        0 <= i < n && is_private(ips@.take(n as int)[i]) && #[trigger] dotted(
                            ips@.take(n as int)[i],
                        ) == t;
                    assert(ips@.take(n + 1)[i] == ips@.take(n as int)[i]);
                }
                if is_private(ips@[n as int]) && dotted(ips@[n as int]) == t {
                    assert(ips@.take(n + 1)[n as int] == ips@[n as int]);
                }
            }
        }
        let ip = ips[n];
        if private(ip) {
            let text = format_ipv4(ip);
            let t = chars_of(text.as_str());
            let mut k: usize = 0;
            while k < out.len() && lex_less(&chars_of(out[k].as_str()), &t)
                invariant
                    k <= out@.len(),
                    out@ == before,
                    t@ == text@,
                    forall|m: int| 0 <= m < k ==> lex_lt(#[trigger] out@[m]@, text@),
                decreases out@.len() - k,
            {
                k = k + 1;
            }
            let present = k < out.len() && eq_lit(&chars_of(out[k].as_str()), text.as_str());
            if !present {
                proof {
                    assert forall|m: int| k <= m < out@.len() implies lex_lt(
                        text@,
                        #[trigger] out@[m]@,
                    ) by {
                        lemma_lex_total(out@[k as int]@, text@);
                        if m > k {
                            assert(lex_lt(views(out@)[k as int], views(out@)[m]));
                            lemma_lex_trans(text@, out@[k as int]@, out@[m]@);
                        }
                    }
                }
                out.insert(k, text);
                proof {
                    assert forall|i: int, j: int|
                        0 <= i < j < out@.len() implies lex_lt(
                        #[trigger] views(out@)[i],
                        #[trigger] views(out@)[j],
                    ) by {
                        if i < k && j > k {
                            assert(views(before)[i] == before[i]@);
                            assert(out@[j] == before[j - 1]);
                            lemma_lex_trans(before[i]@, text@, before[j - 1]@);
                        } else if i < k && j < k {
                            assert(views(before)[i] == views(out@)[i]);
                            assert(views(before)[j] == views(out@)[j]);
                        } else if i > k {
                            assert(views(before)[i - 1] == views(out@)[i]);
                            assert(views(before)[j - 1] == views(out@)[j]);
                        } else if i < k && j == k {
                        } else {
                            assert(out@[j] == before[j - 1]);
                        }
                    }
                    assert forall|s: Seq<char>| #[trigger] text_set(out@).contains(s) == (
                    text_set(before).contains(s) || s == text@) by {
                        if text_set(out@).contains(s) {
                            let i = choose|i: int| 0 <= i < out@.len() && #[trigger] out@[i]@ == s;
                            if i < k {
                                assert(before[i] == out@[i]);
                            } else if i > k {
                                assert(before[i - 1] == out@[i]);
                            }
                        }
                        if text_set(before).contains(s) {
                            let i = choose|i: int| 0 <= i < before.len() && #[trigger] before[i]@ == s;
                            if i < k {
                                assert(out@[i] == before[i]);
                            } else {
                                assert(out@[i + 1] == before[i]);
                            }
                        }
                        if s == text@ {
                            assert(out@[k as int]@ == s);
                        }
                    }
                    assert(text_set(out@) =~= offered(ips@.take(n + 1)));
                }
            } else {
                proof {
                    assert(text_set(before).contains(text@));
                    assert(text_set(out@) =~= offered(ips@.take(n + 1)));
                }
            }
        } else {
            proof {
                assert(text_set(out@) =~= offered(ips@.take(n + 1)));
            }
        }
        n = n + 1;
    }
    assert(ips@.take(ips@.len() as int) =~= ips@);
    out
}

/// Describes the speech providers the phone path can use: the id of the
/// custom Whisper provider and the ids of the known Whisper-compatible
/// providers.
pub struct WhisperProviders {
    pub custom: String,
    pub compatible: Vec<String>,
}

/// Mobile input and practice support the custom Whisper provider and the
/// Whisper-compatible providers only.
pub fn supported(provider: &str, providers: &WhisperProviders) -> (r: bool)
    ensures
        r == (provider@ == providers.custom@ || exists|i: int|
            0 <= i < providers.compatible@.len() && #[trigger] providers.compatible@[i]@
                == provider@),
{
    if eq_lit(&chars_of(providers.custom.as_str()), provider) {
        return true;
    }
    let mut i: usize = 0;
    while i < providers.compatible.len()
        invariant
            i <= providers.compatible@.len(),
            forall|k: int| 0 <= k < i ==> #[trigger] providers.compatible@[k]@ != provider@,
        decreases providers.compatible@.len() - i,
    {
        if eq_lit(&chars_of(providers.compatible[i].as_str()), provider) {
            return true;
        }
        i = i + 1;
    }
    false
}

/// The language sent to speech recognition: none for multilingual.
pub fn stt_language(language: &str) -> (r: Option<String>)
    ensures
        language@ == "multi"@ ==> r is None,
        language@ != "multi"@ ==> (r matches Some(l) && l@ == language@),
{
    if eq_lit(&chars_of(language), "multi") {
        None
    } else {
        Some(String::from_str(language))
    }
}

/// The result before polishing: the transcript shown as both texts.
pub fn raw_result(raw: &str) -> (r: ResultText)
    ensures
        r.raw_text@ == raw@,
        r.polished_text@ == raw@,
        r.warning is None,
{
    ResultText {
        raw_text: String::from_str(raw),
        polished_text: String::from_str(raw),
        warning: None,
    }
}

/// A blank transcript, or polishing switched off, shows the transcript as it is.
pub fn wants_polish(raw: &str, polish_enabled: bool) -> (r: bool)
    ensures
        r == (trim(raw@).len() > 0 && polish_enabled),
{
    polish_enabled && trim_chars(&chars_of(raw)).len() > 0
}

/// Without a readable credential, the transcript is shown with the reason.
pub fn credential_warning(result: &mut ResultText, error: &str)
    ensures
        final(result).raw_text@ == old(result).raw_text@,
        final(result).polished_text@ == old(result).polished_text@,
        final(result).warning matches Some(w) && w@ == error@ + " AI 교정 대신 원문을 표시합니다."@,
{
    let mut w = String::from_str(error);
    push_chars(&mut w, &chars_of(" AI 교정 대신 원문을 표시합니다."));
    result.warning = Some(w);
}

/// The hosted provider, or one without usable credentials, cannot polish
/// on the phone's behalf.
pub fn provider_warning(result: &mut ResultText)
    ensures
        final(result).raw_text@ == old(result).raw_text@,
        final(result).polished_text@ == old(result).polished_text@,
        final(result).warning matches Some(w) && w@
            == "모바일 AI 다듬기에는 Ollama 또는 직접 API 제공자를 설정하세요. 원문을 표시합니다."@,
{
    result.warning = Some(
        String::from_str(
            "모바일 AI 다듬기에는 Ollama 또는 직접 API 제공자를 설정하세요. 원문을 표시합니다.",
        ),
    );
}

/// Whether the hosted provider or missing credentials rule polishing out.
pub fn provider_usable(provider: &str, credentials_usable: bool) -> (r: bool)
    ensures
        r == (provider@ != "cloud"@ && credentials_usable),
{
    !eq_lit(&chars_of(provider), "cloud") && credentials_usable
}

pub open spec fn usable_answer(polished: Option<String>) -> bool {
    polished matches Some(p) && trim(p@).len() > 0
}

/// The outcome of polishing: a non-blank answer replaces the shown text;
/// a blank one, an error or a timeout keeps the transcript with a warning.
pub fn polish_outcome(result: &mut ResultText, polished: Option<String>)
    ensures
        final(result).raw_text@ == old(result).raw_text@,
        usable_answer(polished) ==> final(result).polished_text@ == polished->Some_0@
            && final(result).warning == old(result).warning,
        !usable_answer(polished) ==> final(result).polished_text@ == old(result).polished_text@
            && (final(result).warning matches Some(w) && w@
            == "AI 다듬기에 실패하여 음성 인식 원문을 표시합니다."@),
{
    match polished {
        Some(p) => {
            if trim_chars(&chars_of(p.as_str())).len() > 0 {
                result.polished_text = p;
                return;
            }
        },
        None => {},
    }
    result.warning = Some(String::from_str("AI 다듬기에 실패하여 음성 인식 원문을 표시합니다."));
}

/// The request for polishing a mobile transcript: plain dictation in the
/// neutral context with the desktop's style, scene and translation
/// settings, never a selection.
pub fn mobile_request(
    raw: String,
    dictionary: Vec<String>,
    correction_rules: Vec<CorrectionRule>,
    polish_style: String,
    active_scene: Option<String>,
    polish_custom_prompt: String,
    translate_enabled: bool,
    target_lang: String,
) -> (r: PolishRequest)
    ensures
        r.raw_text@ == raw@,
        r.dictionary@ == dictionary@,
        r.correction_rules@ == correction_rules@,
        r.polish_style@ == polish_style@,
        r.mapped_scene_prompt@.len() == 0,
        r.active_scene_prompt@ == match active_scene {
            Some(s) => s@,
            None => Seq::<char>::empty(),
        },
        r.polish_custom_prompt@ == polish_custom_prompt@,
        r.translate_enabled == translate_enabled,
        r.target_lang@ == target_lang@,
        r.selected_text is None,
        r.voice_intent.kind == crate::request::VoiceIntentKind::DictateInsert,
        r.context.profile_id@ == "general.native"@,
{
    PolishRequest {
        raw_text: raw,
        context: ContextProfileSummary::general_native(),
        dictionary,
        correction_rules,
        polish_style,
        polish_custom_prompt,
        mapped_scene_prompt: String::new(),
        active_scene_prompt: match active_scene {
            Some(s) => s,
            None => String::new(),
        },
        translate_enabled,
        target_lang,
        selected_text: None,
        voice_intent: VoiceIntent::dictate_insert(),
    }
}

/// An error answer of the endpoint: HTTP status and the detail shown.
pub struct Refusal {
    pub status: u16,
    pub detail: String,
}

/// The checks before an upload is read. Only the Android app's header,
/// without a browser origin, is served (this keeps ordinary web pages from
/// posting recordings; it is not authentication); one recording at a time;
/// nothing after the endpoint was switched off.
pub fn screen_request(has_origin: bool, client: Option<&str>, permit: bool, shut_down: bool) -> (r: Result<
    (),
    Refusal,
>)
    ensures
        has_origin || !(client matches Some(c) && c@ == "android-v1"@) ==> (r matches Err(e)
            && e.status == 403 && e.detail@ == "H-OpenTypeless Android 앱에서 연결해 주세요."@),
        !has_origin && (client matches Some(c) && c@ == "android-v1"@) && !permit ==> (r matches Err(
            e,
        ) && e.status == 429 && e.detail@ == "다른 음성을 처리 중입니다. 잠시 후 다시 시도하세요."@),
        !has_origin && (client matches Some(c) && c@ == "android-v1"@) && permit && shut_down ==> (
        r matches Err(e) && e.status == 503 && e.detail@ == "모바일 연결이 꺼졌습니다."@),
        !has_origin && (client matches Some(c) && c@ == "android-v1"@) && permit && !shut_down
            ==> r is Ok,
{
    let android = match client {
        Some(c) => eq_lit(&chars_of(c), "android-v1"),
        None => false,
    };
    if has_origin || !android {
        return Err(
            Refusal { status: 403, detail: String::from_str("H-OpenTypeless Android 앱에서 연결해 주세요.") },
        );
    }
    if !permit {
        return Err(
            Refusal {
                status: 429,
                detail: String::from_str("다른 음성을 처리 중입니다. 잠시 후 다시 시도하세요."),
            },
        );
    }
    if shut_down {
        return Err(Refusal { status: 503, detail: String::from_str("모바일 연결이 꺼졌습니다.") });
    }
    Ok(())
}

/// A multipart field is accepted only if it is the first `file` field.
pub fn accept_field(name: Option<&str>, have_audio: bool) -> (r: bool)
    ensures
        r == (!have_audio && (name matches Some(n) && n@ == "file"@)),
{
    if have_audio {
        return false;
    }
    match name {
        Some(n) => eq_lit(&chars_of(n), "file"),
        None => false,
    }
}

/// The refusal for a body that is not a multipart form.
pub fn malformed_upload() -> (r: Refusal)
    ensures
        r.status == 400,
        r.detail@ == "음성 파일 전송 형식이 올바르지 않습니다."@,
{
    Refusal { status: 400, detail: String::from_str("음성 파일 전송 형식이 올바르지 않습니다.") }
}

/// The refusal for a missing, repeated or oversized file, or a slow upload.
pub fn missing_upload() -> (r: Refusal)
    ensures
        r.status == 400,
        r.detail@ == "파일이 없거나 너무 큽니다. 전송은 30초 안에 완료되어야 합니다."@,
{
    Refusal {
        status: 400,
        detail: String::from_str("파일이 없거나 너무 큽니다. 전송은 30초 안에 완료되어야 합니다."),
    }
}

/// The refusal for audio that is not 16 kHz mono PCM16 WAV.
pub fn unsupported_audio(message: String) -> (r: Refusal)
    ensures
        r.status == 415,
        r.detail@ == message@,
{
    Refusal { status: 415, detail: message }
}

/// How processing ended.
pub enum Processed {
    Done(ResultText),
    Failed(String),
    TimedOut,
    Stopped,
}

pub open spec fn reply_of(outcome: Processed) -> Result<ResultText, (u16, Seq<char>)> {
    match outcome {
        Processed::Done(t) => Ok(t),
        Processed::Failed(m) => Err((502u16, m@)),
        Processed::TimedOut => Err((504u16, "음성 처리 시간이 초과되었습니다. 모델 엔진을 확인하세요."@)),
        Processed::Stopped => Err((503u16, "모바일 연결이 꺼져 요청을 취소했습니다."@)),
    }
}

/// The answer for a processed upload: the result, or 502 with the
/// processor's message, 504 after the processing deadline, 503 when the
/// endpoint was switched off meanwhile.
pub fn processed_reply(outcome: Processed) -> (r: Result<ResultText, Refusal>)
    ensures
        match r {
            Ok(t) => Ok(t),
            Err(e) => Err((e.status, e.detail@)),
        } == reply_of(outcome),
{
    match outcome {
        Processed::Done(t) => Ok(t),
        Processed::Failed(m) => Err(Refusal { status: 502, detail: m }),
        Processed::TimedOut => Err(
            Refusal {
                status: 504,
                detail: String::from_str("음성 처리 시간이 초과되었습니다. 모델 엔진을 확인하세요."),
            },
        ),
        Processed::Stopped => Err(
            Refusal { status: 503, detail: String::from_str("모바일 연결이 꺼져 요청을 취소했습니다.") },
        ),
    }
}

} // verus!

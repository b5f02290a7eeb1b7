//! Runtime config for the greeter/locker look: flat `key = value` lines.
//!
//! Missing or bad values fall back to the defaults, unknown keys are
//! ignored, and every default is the stock look, so an empty file and no
//! file mean the same thing. Inline comments start with ` #` (space-hash):
//! an accent value itself begins with `#`.

use crate::text::{
    is_ws, lemma_index_of_at, lemma_index_of_pair_bounds, lemma_lines_join, lemma_trim_end_suffix,
    lemma_trim_noop, lemma_trim_start_prefix, no_char, plain_line, trim_start,
    chars_eq, chars_of, find_char, find_pair, index_of, index_of_pair, join_lines, lemma_index_of_bounds,
    line_ranges, lines, push_char, push_str, range_eq, string_of, trim, trim_range,
};
use vstd::prelude::*;

verus! {

/// Where the spinning-logo frames come from.
#[derive(Debug, Clone, PartialEq, Eq)]
pub enum Logo {
    /// key absent or `legacy`: the greeting-dir art
    Legacy,
    /// `none`: no art at all
    Hidden,
    /// `<key>`: `<logos_dir>/<key>.txt`
    Key(String),
}

/// The mathematical value of a [`Logo`].
pub enum SpecLogo {
    Legacy,
    Hidden,
    Key(Seq<char>),
}

impl View for Logo {
    type V = SpecLogo;

    open spec fn view(&self) -> SpecLogo {
        match self {
            Logo::Legacy => SpecLogo::Legacy,
            Logo::Hidden => SpecLogo::Hidden,
            Logo::Key(k) => SpecLogo::Key(k@),
        }
    }
}

impl Logo {
    /// A copy with the same value.
    pub fn duplicate(&self) -> (r: Logo)
        ensures
            r@ == self@,
    {
        match self {
            Logo::Legacy => Logo::Legacy,
            Logo::Hidden => Logo::Hidden,
            Logo::Key(k) => Logo::Key(k.clone()),
        }
    }

    /// Value equality.
    pub fn same(&self, other: &Logo) -> (r: bool)
        ensures
            r == (self@ == other@),
    {
        match (self, other) {
            (Logo::Legacy, Logo::Legacy) => true,
            (Logo::Hidden, Logo::Hidden) => true,
            (Logo::Key(a), Logo::Key(b)) => {
                let r = *a == *b;
                proof {
                    if !r {
                        assert(SpecLogo::Key(a@) != SpecLogo::Key(b@));
                    }
                }
                r
            },
            _ => false,
        }
    }
}

/// CRT overlay intensity; `Strong` is the stock look.
#[derive(Debug, Clone, Copy, PartialEq, Eq, Structural)]
pub enum Crt {
    Strong,
    Subtle,
    Off,
}

/// Which pre-baked capture tier of a logo to draw.
#[derive(Debug, Clone, Copy, PartialEq, Eq, Structural)]
pub enum LogoRes {
    High,
    Medium,
    Low,
}

impl LogoRes {
    pub open spec fn spec_name(self) -> Seq<char> {
        match self {
            LogoRes::High => "high"@,
            LogoRes::Medium => "medium"@,
            LogoRes::Low => "low"@,
        }
    }

    pub open spec fn spec_suffix(self) -> Seq<char> {
        match self {
            LogoRes::High => ""@,
            LogoRes::Medium => "-med"@,
            LogoRes::Low => "-low"@,
        }
    }

    pub open spec fn spec_parse(s: Seq<char>) -> Option<LogoRes> {
        if s == "high"@ {
            Some(LogoRes::High)
        } else if s == "medium"@ {
            Some(LogoRes::Medium)
        } else if s == "low"@ {
            Some(LogoRes::Low)
        } else {
            None
        }
    }

    /// The value written to config.toml.
    pub fn name(self) -> (r: &'static str)
        ensures
            r@ == self.spec_name(),
    {
        match self {
            LogoRes::High => "high",
            LogoRes::Medium => "medium",
            LogoRes::Low => "low",
        }
    }

    /// The generator's `--size` that bakes this tier.
    pub fn capture_size(self) -> (r: &'static str)
        ensures
            r@ == (match self {
                LogoRes::High => "2"@,
                LogoRes::Medium => "1"@,
                LogoRes::Low => "0.5"@,
            }),
    {
        match self {
            LogoRes::High => "2",
            LogoRes::Medium => "1",
            LogoRes::Low => "0.5",
        }
    }

    /// File-name suffix of this tier's frames file.
    pub fn suffix(self) -> (r: &'static str)
        ensures
            r@ == self.spec_suffix(),
    {
        match self {
            LogoRes::High => "",
            LogoRes::Medium => "-med",
            LogoRes::Low => "-low",
        }
    }

    pub fn parse(s: &str) -> (r: Option<LogoRes>)
        ensures
            r == Self::spec_parse(s@),
    {
        let c = chars_of(s);
        if chars_eq(&c, "high") {
            Some(LogoRes::High)
        } else if chars_eq(&c, "medium") {
            Some(LogoRes::Medium)
        } else if chars_eq(&c, "low") {
            Some(LogoRes::Low)
        } else {
            None
        }
    }
}

/// How much of the screen-safe box the logo is drawn to fill.
#[derive(Debug, Clone, Copy, PartialEq, Eq, Structural)]
pub enum LogoSize {
    Large,
    Medium,
    Small,
}

impl LogoSize {
    pub open spec fn spec_name(self) -> Seq<char> {
        match self {
            LogoSize::Large => "large"@,
            LogoSize::Medium => "medium"@,
            LogoSize::Small => "small"@,
        }
    }

    pub open spec fn spec_parse(s: Seq<char>) -> Option<LogoSize> {
        if s == "large"@ {
            Some(LogoSize::Large)
        } else if s == "medium"@ {
            Some(LogoSize::Medium)
        } else if s == "small"@ {
            Some(LogoSize::Small)
        } else {
            None
        }
    }

    /// The value written to config.toml.
    pub fn name(self) -> (r: &'static str)
        ensures
            r@ == self.spec_name(),
    {
        match self {
            LogoSize::Large => "large",
            LogoSize::Medium => "medium",
            LogoSize::Small => "small",
        }
    }

    /// The share of the full box this size fills, in percent.
    pub fn percent(self) -> (r: u32)
        ensures
            r == (match self {
                LogoSize::Large => 100u32,
                LogoSize::Medium => 65u32,
                LogoSize::Small => 40u32,
            }),
    {
        match self {
            LogoSize::Large => 100,
            LogoSize::Medium => 65,
            LogoSize::Small => 40,
        }
    }

    pub fn parse(s: &str) -> (r: Option<LogoSize>)
        ensures
            r == Self::spec_parse(s@),
    {
        let c = chars_of(s);
        if chars_eq(&c, "large") {
            Some(LogoSize::Large)
        } else if chars_eq(&c, "medium") {
            Some(LogoSize::Medium)
        } else if chars_eq(&c, "small") {
            Some(LogoSize::Small)
        } else {
            None
        }
    }
}

/// An ASCII hex digit.
pub open spec fn is_hex_digit(c: char) -> bool {
    ('0' <= c && c <= '9') || ('a' <= c && c <= 'f') || ('A' <= c && c <= 'F')
}

/// The value of an ASCII hex digit.
pub open spec fn hex_value(c: char) -> u8 {
    if '0' <= c && c <= '9' {
        (c as u32 - '0' as u32) as u8
    } else if 'a' <= c && c <= 'f' {
        (c as u32 - 'a' as u32 + 10) as u8
    } else {
        (c as u32 - 'A' as u32 + 10) as u8
    }
}

/// The lowercase hex digit of a value below 16.
pub open spec fn hex_char(v: u8) -> char {
    if v < 10 {
        ('0' as u32 + v) as char
    } else {
        ('a' as u32 + v - 10) as char
    }
}

/// Two lowercase hex digits of a byte.
pub open spec fn hex_byte(b: u8) -> Seq<char> {
    seq![hex_char(b / 16), hex_char(b % 16)]
}

/// One parsed accent color.
#[derive(Debug, Clone, Copy, PartialEq, Eq, Structural)]
pub struct HexColor {
    pub r: u8,
    pub g: u8,
    pub b: u8,
}

impl HexColor {
    /// `#rrggbb`: a hash and exactly six hex digits, either case.
    pub open spec fn spec_parse(s: Seq<char>) -> Option<HexColor> {
        if s.len() == 7 && s[0] == '#' && (forall|i: int| 1 <= i < 7 ==> is_hex_digit(
            #[trigger] s[i],
        )) {
            Some(
                HexColor {
                    r: (hex_value(s[1]) * 16 + hex_value(s[2])) as u8,
                    g: (hex_value(s[3]) * 16 + hex_value(s[4])) as u8,
                    b: (hex_value(s[5]) * 16 + hex_value(s[6])) as u8,
                },
            )
        } else {
            None
        }
    }

    /// `#rrggbb`, lowercase.
    pub open spec fn spec_to_hex(self) -> Seq<char> {
        seq!['#'] + hex_byte(self.r) + hex_byte(self.g) + hex_byte(self.b)
    }

    /// `#rrggbb`, case-insensitive, exactly 6 hex digits.
    pub fn parse(s: &str) -> (r: Option<HexColor>)
        ensures
            r == Self::spec_parse(s@),
    {
        let c = chars_of(s);
        if c.len() != 7 || c[0] != '#' {
            return None;
        }
        let mut i: usize = 1;
        while i < 7
            invariant
                1 <= i <= 7,
                c@ == s@,
                c@.len() == 7,
                forall|j: int| 1 <= j < i ==> is_hex_digit(#[trigger] c@[j]),
            decreases 7 - i,
        {
            if !hex_digit(c[i]) {
                return None;
            }
            i += 1;
        }
        let r = hex_digit_value(c[1]) * 16 + hex_digit_value(c[2]);
        let g = hex_digit_value(c[3]) * 16 + hex_digit_value(c[4]);
        let b = hex_digit_value(c[5]) * 16 + hex_digit_value(c[6]);
        Some(HexColor { r, g, b })
    }

    pub fn to_hex(self) -> (r: String)
        ensures
            r@ == self.spec_to_hex(),
    {
        let mut out = String::new();
        push_char(&mut out, '#');
        push_hex_byte(&mut out, self.r);
        push_hex_byte(&mut out, self.g);
        push_hex_byte(&mut out, self.b);
        out
    }
}

fn hex_digit(c: char) -> (r: bool)
    ensures
        r == is_hex_digit(c),
{
    ('0' <= c && c <= '9') || ('a' <= c && c <= 'f') || ('A' <= c && c <= 'F')
}

fn hex_digit_value(c: char) -> (r: u8)
    requires
        is_hex_digit(c),
    ensures
        r == hex_value(c),
        r < 16,
{
    if '0' <= c && c <= '9' {
        (c as u32 - '0' as u32) as u8
    } else if 'a' <= c && c <= 'f' {
        (c as u32 - 'a' as u32 + 10) as u8
    } else {
        (c as u32 - 'A' as u32 + 10) as u8
    }
}

fn hex_digit_char(v: u8) -> (r: char)
    requires
        v < 16,
    ensures
        r == hex_char(v),
{
    if v < 10 {
        char_from_code(48 + v as u32)
    } else {
        char_from_code(97 + v as u32 - 10)
    }
}

/// The character with an ASCII code point.
fn char_from_code(u: u32) -> (r: char)
    requires
        u < 128,
    ensures
        r == u as char,
{
    let b: u8 = u as u8;
    b as char
}

pub fn push_hex_byte(out: &mut String, b: u8)
    ensures
        final(out)@ == old(out)@ + hex_byte(b),
{
    push_char(out, hex_digit_char(b / 16));
    push_char(out, hex_digit_char(b % 16));
    assert(final(out)@ =~= old(out)@ + hex_byte(b));
}

/// The mathematical value of a [`Config`].
pub struct SpecConfig {
    pub osk: bool,
    pub logo: SpecLogo,
    pub logo_res: LogoRes,
    pub logo_size: LogoSize,
    pub accent: Option<HexColor>,
    pub crt: Crt,
}

#[derive(Debug, Clone, PartialEq)]
pub struct Config {
    /// show the touch OSK dock (the deck itself starts stowed)
    pub osk: bool,
    pub logo: Logo,
    /// which baked capture tier to draw
    pub logo_res: LogoRes,
    /// how much of the screen the logo fills
    pub logo_size: LogoSize,
    /// phosphor accent; None = stock green
    pub accent: Option<HexColor>,
    pub crt: Crt,
}

impl View for Config {
    type V = SpecConfig;

    open spec fn view(&self) -> SpecConfig {
        SpecConfig {
            osk: self.osk,
            logo: self.logo@,
            logo_res: self.logo_res,
            logo_size: self.logo_size,
            accent: self.accent,
            crt: self.crt,
        }
    }
}

/// The stock look: what no config file means.
pub open spec fn default_config() -> SpecConfig {
    SpecConfig {
        osk: true,
        logo: SpecLogo::Legacy,
        logo_res: LogoRes::High,
        logo_size: LogoSize::Large,
        accent: None,
        crt: Crt::Strong,
    }
}

impl Config {
    /// A copy with the same value.
    pub fn duplicate(&self) -> (r: Config)
        ensures
            r@ == self@,
    {
        Config {
            osk: self.osk,
            logo: self.logo.duplicate(),
            logo_res: self.logo_res,
            logo_size: self.logo_size,
            accent: self.accent,
            crt: self.crt,
        }
    }
}

impl Default for Config {
    fn default() -> (r: Config)
        ensures
            r@ == default_config(),
    {
        Config {
            osk: true,
            logo: Logo::Legacy,
            logo_res: LogoRes::High,
            logo_size: LogoSize::Large,
            accent: None,
            crt: Crt::Strong,
        }
    }
}

/// The config file path: a non-blank override, else the system path.
pub open spec fn spec_resolve_path(env_val: Option<Seq<char>>) -> Seq<char> {
    match env_val {
        Some(v) if trim(v).len() > 0 => v,
        _ => "/etc/losker/config.toml"@,
    }
}

/// True when `s` holds something other than whitespace.
pub fn is_blank(s: &str) -> (r: bool)
    ensures
        r == (trim(s@).len() == 0),
{
    let c = chars_of(s);
    let (a, b) = trim_range(&c, 0, c.len());
    assert(c@.subrange(0, c.len() as int) =~= c@);
    a == b
}

/// Pure path resolution: the override value (the environment's, handed
/// in by the caller) wins when it is not blank.
pub fn resolve_path(env_val: Option<&str>) -> (r: String)
    ensures
        r@ == spec_resolve_path(
            match env_val {
                Some(v) => Some(v@),
                None => None,
            },
        ),
{
    match env_val {
        Some(v) => {
            if !is_blank(v) {
                return v.to_owned();
            }
        },
        None => {},
    }
    "/etc/losker/config.toml".to_owned()
}

/// A character a logo key may hold.
pub open spec fn is_key_char(c: char) -> bool {
    ('a' <= c && c <= 'z') || ('A' <= c && c <= 'Z') || ('0' <= c && c <= '9') || c == '.' || c
        == '_' || c == '-'
}

/// Logo keys become file names under the logos dir: 1..=32 boring
/// characters, not starting with a dot (no traversal, no hidden files).
pub open spec fn spec_valid_logo_key(k: Seq<char>) -> bool {
    &&& 1 <= k.len() <= 32
    &&& k[0] != '.'
    &&& forall|i: int| 0 <= i < k.len() ==> is_key_char(#[trigger] k[i])
}

pub fn key_char(c: char) -> (r: bool)
    ensures
        r == is_key_char(c),
{
    ('a' <= c && c <= 'z') || ('A' <= c && c <= 'Z') || ('0' <= c && c <= '9') || c == '.' || c
        == '_' || c == '-'
}

/// `s[lo..hi]` is a valid logo key.
pub fn valid_key_range(s: &Vec<char>, lo: usize, hi: usize) -> (r: bool)
    requires
        lo <= hi <= s.len(),
    ensures
        r == spec_valid_logo_key(s@.subrange(lo as int, hi as int)),
{
    let ghost k = s@.subrange(lo as int, hi as int);
    if hi == lo || hi - lo > 32 || s[lo] == '.' {
        return false;
    }
    let mut i = lo;
    while i < hi
        invariant
            lo <= i <= hi <= s.len(),
            k == s@.subrange(lo as int, hi as int),
            forall|j: int| 0 <= j < i - lo ==> is_key_char(#[trigger] k[j]),
        decreases hi - i,
    {
        if !key_char(s[i]) {
            assert(!is_key_char(k[i - lo]));
            return false;
        }
        i += 1;
    }
    true
}

/// Logo keys become file names under the logos dir — keep them boring.
pub fn valid_logo_key(k: &str) -> (r: bool)
    ensures
        r == spec_valid_logo_key(k@),
{
    let c = chars_of(k);
    let r = valid_key_range(&c, 0, c.len());
    assert(c@.subrange(0, c.len() as int) =~= c@);
    r
}

/// The effect of one `key = value` pair; bad values leave the field alone.
pub open spec fn apply_pair(cfg: SpecConfig, key: Seq<char>, val: Seq<char>) -> SpecConfig {
    if key == "osk"@ {
        if val == "enabled"@ {
            SpecConfig { osk: true, ..cfg }
        } else if val == "disabled"@ {
            SpecConfig { osk: false, ..cfg }
        } else {
            cfg
        }
    } else if key == "logo"@ {
        if val == "legacy"@ {
            SpecConfig { logo: SpecLogo::Legacy, ..cfg }
        } else if val == "none"@ {
            SpecConfig { logo: SpecLogo::Hidden, ..cfg }
        } else if spec_valid_logo_key(val) {
            SpecConfig { logo: SpecLogo::Key(val), ..cfg }
        } else {
            cfg
        }
    } else if key == "logo_res"@ {
        match LogoRes::spec_parse(val) {
            Some(r) => SpecConfig { logo_res: r, ..cfg },
            None => cfg,
        }
    } else if key == "logo_size"@ {
        match LogoSize::spec_parse(val) {
            Some(s) => SpecConfig { logo_size: s, ..cfg },
            None => cfg,
        }
    } else if key == "accent"@ {
        match HexColor::spec_parse(val) {
            Some(c) => SpecConfig { accent: Some(c), ..cfg },
            None => cfg,
        }
    } else if key == "crt"@ {
        if val == "strong"@ {
            SpecConfig { crt: Crt::Strong, ..cfg }
        } else if val == "subtle"@ {
            SpecConfig { crt: Crt::Subtle, ..cfg }
        } else if val == "off"@ {
            SpecConfig { crt: Crt::Off, ..cfg }
        } else {
            cfg
        }
    } else {
        cfg
    }
}

/// The value part of a line: trimmed, with an inline ` #` comment cut off.
pub open spec fn line_value(after_eq: Seq<char>) -> Seq<char> {
    let v = trim(after_eq);
    let i = index_of_pair(v, ' ', '#');
    if i >= 0 {
        trim(v.take(i))
    } else {
        v
    }
}

/// The effect of one raw line: blank lines, `#` comments and lines
/// without `=` change nothing.
pub open spec fn apply_line(cfg: SpecConfig, raw: Seq<char>) -> SpecConfig {
    let line = trim(raw);
    if line.len() == 0 || line[0] == '#' {
        cfg
    } else {
        let eq = index_of(line, '=');
        if eq < 0 {
            cfg
        } else {
            apply_pair(cfg, trim(line.take(eq)), line_value(line.skip(eq + 1)))
        }
    }
}

/// Lines applied in order, starting from the defaults.
pub open spec fn apply_lines(ls: Seq<Seq<char>>) -> SpecConfig
    decreases ls.len(),
{
    if ls.len() == 0 {
        default_config()
    } else {
        apply_line(apply_lines(ls.drop_last()), ls.last())
    }
}

/// The config a file's text describes.
pub open spec fn spec_parse_config(text: Seq<char>) -> SpecConfig {
    apply_lines(lines(text))
}

/// Parses one line `s[lo..hi]` into `cfg`.
fn apply_line_exec(cfg: &mut Config, s: &Vec<char>, lo: usize, hi: usize)
    requires
        lo <= hi <= s.len(),
    ensures
        final(cfg)@ == apply_line(old(cfg)@, s@.subrange(lo as int, hi as int)),
{
    let ghost raw = s@.subrange(lo as int, hi as int);
    let (a, b) = trim_range(s, lo, hi);
    let ghost line = s@.subrange(a as int, b as int);
    if a == b || s[a] == '#' {
        return ;
    }
    let eq = find_char(s, a, b, '=');
    if eq == b {
        return ;
    }
    proof {
        lemma_index_of_bounds(line, '=');
        assert(line.take(eq - a) =~= s@.subrange(a as int, eq as int));
        assert(line.skip(eq - a + 1) =~= s@.subrange(eq + 1, b as int));
    }
    let (ka, kb) = trim_range(s, a, eq);
    let (va, vb) = trim_range(s, eq + 1, b);
    let hash = find_pair(s, va, vb, ' ', '#');
    let (va, vb) = if hash < vb {
        proof {
            let v = s@.subrange(va as int, vb as int);
            assert(v.take(hash - va) =~= s@.subrange(va as int, hash as int));
        }
        trim_range(s, va, hash)
    } else {
        (va, vb)
    };
    let ghost key = s@.subrange(ka as int, kb as int);
    let ghost val = s@.subrange(va as int, vb as int);
    assert(val == line_value(line.skip(eq - a + 1)));
    if range_eq(s, ka, kb, "osk") {
        if range_eq(s, va, vb, "enabled") {
            cfg.osk = true;
        } else if range_eq(s, va, vb, "disabled") {
            cfg.osk = false;
        }
    } else if range_eq(s, ka, kb, "logo") {
        if range_eq(s, va, vb, "legacy") {
            cfg.logo = Logo::Legacy;
        } else if range_eq(s, va, vb, "none") {
            cfg.logo = Logo::Hidden;
        } else if valid_key_range(s, va, vb) {
            cfg.logo = Logo::Key(string_of(s, va, vb));
        }
    } else if range_eq(s, ka, kb, "logo_res") {
        let v = string_of(s, va, vb);
        match LogoRes::parse(v.as_str()) {
            Some(r) => cfg.logo_res = r,
            None => {},
        }
    } else if range_eq(s, ka, kb, "logo_size") {
        let v = string_of(s, va, vb);
        match LogoSize::parse(v.as_str()) {
            Some(z) => cfg.logo_size = z,
            None => {},
        }
    } else if range_eq(s, ka, kb, "accent") {
        let v = string_of(s, va, vb);
        match HexColor::parse(v.as_str()) {
            Some(c) => cfg.accent = Some(c),
            None => {},
        }
    } else if range_eq(s, ka, kb, "crt") {
        if range_eq(s, va, vb, "strong") {
            cfg.crt = Crt::Strong;
        } else if range_eq(s, va, vb, "subtle") {
            cfg.crt = Crt::Subtle;
        } else if range_eq(s, va, vb, "off") {
            cfg.crt = Crt::Off;
        }
    }
}

/// The config that a file's text describes — the pure core of loading:
/// every line applied in order over the defaults.
pub fn parse_config(text: &str) -> (r: Config)
    ensures
        r@ == spec_parse_config(text@),
{
    let s = chars_of(text);
    let ranges = line_ranges(&s);
    let mut cfg = Config::default();
    let mut k: usize = 0;
    while k < ranges.len()
        invariant
            k <= ranges@.len() == lines(s@).len(),
            s@ == text@,
            forall|j: int|
                0 <= j < ranges@.len() ==> {
                    &&& (#[trigger] ranges@[j]).0 <= ranges@[j].1 <= s.len()
                    &&& s@.subrange(ranges@[j].0 as int, ranges@[j].1 as int) == lines(s@)[j]
                },
            cfg@ == apply_lines(lines(s@).take(k as int)),
        decreases ranges@.len() - k,
    {
        let (lo, hi) = ranges[k];
        apply_line_exec(&mut cfg, &s, lo, hi);
        proof {
            let ls = lines(s@).take(k + 1);
            assert(ls.drop_last() =~= lines(s@).take(k as int));
        }
        k += 1;
    }
    assert(lines(s@).take(k as int) =~= lines(s@));
    cfg
}

/// The text a config saves as: only the non-default values, one line each.
pub open spec fn spec_render_config(cfg: SpecConfig) -> Seq<char> {
    join_lines(config_lines(cfg))
}

pub open spec fn osk_lines(cfg: SpecConfig) -> Seq<Seq<char>> {
    if !cfg.osk {
        seq!["osk = disabled"@]
    } else {
        Seq::empty()
    }
}

pub open spec fn logo_lines(cfg: SpecConfig) -> Seq<Seq<char>> {
    match cfg.logo {
        SpecLogo::Legacy => Seq::empty(),
        SpecLogo::Hidden => seq!["logo = none"@],
        SpecLogo::Key(k) => seq!["logo = "@ + k],
    }
}

pub open spec fn res_lines(cfg: SpecConfig) -> Seq<Seq<char>> {
    if cfg.logo_res != LogoRes::High {
        seq!["logo_res = "@ + cfg.logo_res.spec_name()]
    } else {
        Seq::empty()
    }
}

pub open spec fn size_lines(cfg: SpecConfig) -> Seq<Seq<char>> {
    if cfg.logo_size != LogoSize::Large {
        seq!["logo_size = "@ + cfg.logo_size.spec_name()]
    } else {
        Seq::empty()
    }
}

pub open spec fn accent_lines(cfg: SpecConfig) -> Seq<Seq<char>> {
    match cfg.accent {
        Some(c) => seq!["accent = "@ + c.spec_to_hex()],
        None => Seq::empty(),
    }
}

pub open spec fn crt_lines(cfg: SpecConfig) -> Seq<Seq<char>> {
    match cfg.crt {
        Crt::Strong => Seq::empty(),
        Crt::Subtle => seq!["crt = subtle"@],
        Crt::Off => seq!["crt = off"@],
    }
}

/// The lines of a saved config, in file order.
pub open spec fn config_lines(cfg: SpecConfig) -> Seq<Seq<char>> {
    osk_lines(cfg) + logo_lines(cfg) + res_lines(cfg) + size_lines(cfg) + accent_lines(cfg)
        + crt_lines(cfg)
}

/// Appends `a` then `b` and a line break.
fn push_line(out: &mut String, a: &str, b: &str)
    ensures
        final(out)@ == old(out)@ + join_lines(seq![a@ + b@]),
{
    push_str(out, a);
    push_str(out, b);
    push_char(out, '\n');
    proof {
        lemma_join_one(Seq::empty(), a@ + b@);
        assert(Seq::<Seq<char>>::empty().push(a@ + b@) =~= seq![a@ + b@]);
    }
    assert(final(out)@ =~= old(out)@ + join_lines(seq![a@ + b@]));
}

fn push_nothing(out: &String)
    ensures
        out@ == out@ + join_lines(Seq::empty()),
{
    assert(out@ =~= out@ + join_lines(Seq::empty()));
}

/// The text a config saves as: only non-default lines, so the stock
/// config saves as an empty file.
fn config_text(cfg: &Config) -> (r: String)
    ensures
        r@ == spec_render_config(cfg@),
{
    let ghost v = cfg@;
    let mut out = String::new();
    if !cfg.osk {
        push_line(&mut out, "osk = disabled", "");
        assert("osk = disabled"@ + ""@ =~= "osk = disabled"@) by {
            reveal_strlit("");
        }
    } else {
        push_nothing(&out);
    }
    let ghost o1 = out@;
    assert(o1 == join_lines(osk_lines(v)));
    match &cfg.logo {
        Logo::Legacy => push_nothing(&out),
        Logo::Hidden => {
            push_line(&mut out, "logo = none", "");
            assert("logo = none"@ + ""@ =~= "logo = none"@) by {
                reveal_strlit("");
            }
        },
        Logo::Key(k) => push_line(&mut out, "logo = ", k.as_str()),
    }
    let ghost o2 = out@;
    assert(o2 == o1 + join_lines(logo_lines(v)));
    if cfg.logo_res != LogoRes::High {
        push_line(&mut out, "logo_res = ", cfg.logo_res.name());
    } else {
        push_nothing(&out);
    }
    let ghost o3 = out@;
    assert(o3 == o2 + join_lines(res_lines(v)));
    if cfg.logo_size != LogoSize::Large {
        push_line(&mut out, "logo_size = ", cfg.logo_size.name());
    } else {
        push_nothing(&out);
    }
    let ghost o4 = out@;
    assert(o4 == o3 + join_lines(size_lines(v)));
    match cfg.accent {
        Some(c) => {
            let h = c.to_hex();
            push_line(&mut out, "accent = ", h.as_str());
        },
        None => push_nothing(&out),
    }
    let ghost o5 = out@;
    assert(o5 == o4 + join_lines(accent_lines(v)));
    match cfg.crt {
        Crt::Strong => push_nothing(&out),
        Crt::Subtle => {
            push_line(&mut out, "crt = subtle", "");
            assert("crt = subtle"@ + ""@ =~= "crt = subtle"@) by {
                reveal_strlit("");
            }
        },
        Crt::Off => {
            push_line(&mut out, "crt = off", "");
            assert("crt = off"@ + ""@ =~= "crt = off"@) by {
                reveal_strlit("");
            }
        },
    }
    assert(out@ == o5 + join_lines(crt_lines(v)));
    proof {
        lemma_join_concat(osk_lines(v), logo_lines(v));
        lemma_join_concat(osk_lines(v) + logo_lines(v), res_lines(v));
        lemma_join_concat(osk_lines(v) + logo_lines(v) + res_lines(v), size_lines(v));
        lemma_join_concat(
            osk_lines(v) + logo_lines(v) + res_lines(v) + size_lines(v),
            accent_lines(v),
        );
        lemma_join_concat(
            osk_lines(v) + logo_lines(v) + res_lines(v) + size_lines(v) + accent_lines(v),
            crt_lines(v),
        );
    }
    out
}

/// `join_lines` distributes over concatenation.
pub proof fn lemma_join_concat(a: Seq<Seq<char>>, b: Seq<Seq<char>>)
    ensures
        join_lines(a + b) == join_lines(a) + join_lines(b),
    decreases a.len(),
{
    if a.len() == 0 {
        assert(a + b =~= b);
        assert(join_lines(a) + join_lines(b) =~= join_lines(b));
    } else {
        assert((a + b).drop_first() =~= a.drop_first() + b);
        assert((a + b)[0] == a[0]);
        lemma_join_concat(a.drop_first(), b);
        assert(join_lines(a + b) =~= join_lines(a) + join_lines(b));
    }
}

/// `join_lines` grows one line at a time.
pub proof fn lemma_join_one(ls: Seq<Seq<char>>, l: Seq<char>)
    ensures
        join_lines(ls.push(l)) == join_lines(ls) + l + seq!['\n'],
    decreases ls.len(),
{
    if ls.len() == 0 {
        assert(ls.push(l).drop_first() =~= Seq::<Seq<char>>::empty());
        assert(join_lines(Seq::<Seq<char>>::empty()) == Seq::<char>::empty());
        assert(ls.push(l)[0] == l);
        assert(join_lines(ls.push(l)) =~= l + seq!['\n']);
        assert(join_lines(ls) + l + seq!['\n'] =~= l + seq!['\n']);
    } else {
        assert(ls.push(l).drop_first() =~= ls.drop_first().push(l));
        lemma_join_one(ls.drop_first(), l);
        assert(join_lines(ls.push(l)) =~= join_lines(ls) + l + seq!['\n']);
    }
}

} // verus!

verus! {

/// A config whose saved form reads back as itself: a logo key must be a
/// valid key and must not spell one of the two keywords.
pub open spec fn saveable(cfg: SpecConfig) -> bool {
    match cfg.logo {
        SpecLogo::Key(k) => spec_valid_logo_key(k) && k != "legacy"@ && k != "none"@,
        _ => true,
    }
}

/// Lines a value may hold without disturbing the line parser.
pub open spec fn plain_value(v: Seq<char>) -> bool {
    &&& v.len() > 0
    &&& !is_ws(v[0])
    &&& !is_ws(v.last())
    &&& no_char(v, ' ')
    &&& no_char(v, '\n')
    &&& v.last() != '\r'
}

/// A key as the renderer writes it.
pub open spec fn plain_key(k: Seq<char>) -> bool {
    &&& k.len() > 0
    &&& k[0] != '#'
    &&& !is_ws(k[0])
    &&& !is_ws(k.last())
    &&& no_char(k, '=')
    &&& no_char(k, '\n')
}

/// A rendered `key = value` line applies exactly that pair.
pub proof fn lemma_apply_kv(c: SpecConfig, key: Seq<char>, val: Seq<char>)
    requires
        plain_key(key),
        plain_value(val),
    ensures
        apply_line(c, key + " = "@ + val) == apply_pair(c, key, val),
        plain_line(key + " = "@ + val),
{
    reveal_strlit(" = ");
    let sep = " = "@;
    let line = key + sep + val;
    assert(line.len() > 0 && line[0] == key[0]);
    assert(line.last() == val.last());
    lemma_trim_noop(line);
    let ks = key + seq![' '];
    assert(no_char(ks, '=')) by {
        assert forall|i: int| 0 <= i < ks.len() implies ks[i] != '=' by {
            if i < key.len() {
                assert(ks[i] == key[i]);
            }
        }
    }
    assert(line =~= ks + seq!['='] + (seq![' '] + val));
    lemma_index_of_at(ks, '=', seq![' '] + val);
    let eq = index_of(line, '=');
    assert(eq == key.len() + 1);
    assert(line.take(eq) =~= key + seq![' ']);
    lemma_trim_end_suffix(key, seq![' ']);
    assert(trim_start(key + seq![' ']) == key + seq![' ']);
    lemma_trim_noop(key);
    assert(trim(line.take(eq)) == key);
    assert(line.skip(eq + 1) =~= seq![' '] + val);
    lemma_trim_start_prefix(seq![' '], val);
    lemma_trim_noop(val);
    assert(trim_start(val) == val);
    assert(trim(line.skip(eq + 1)) == val);
    lemma_index_of_pair_bounds(val, ' ', '#');
    assert(line_value(line.skip(eq + 1)) == val);
    assert(no_char(line, '\n')) by {
        assert forall|i: int| 0 <= i < line.len() implies line[i] != '\n' by {
            if i < key.len() {
                assert(line[i] == key[i]);
            } else if i >= key.len() + 3 {
                assert(line[i] == val[i - key.len() - 3]);
            }
        }
    }
}

/// An accent color written as `#rrggbb` parses back as the same color.
pub proof fn lemma_hex_roundtrip(h: HexColor)
    ensures
        HexColor::spec_parse(h.spec_to_hex()) == Some(h),
        plain_value(h.spec_to_hex()),
{
    let s = h.spec_to_hex();
    assert(s.len() == 7);
    assert forall|i: int| 1 <= i < 7 implies is_hex_digit(#[trigger] s[i]) by {}
    assert forall|v: u8| v < 16 implies hex_value(#[trigger] hex_char(v)) == v by {}
    assert(hex_value(s[1]) * 16 + hex_value(s[2]) == h.r);
    assert(hex_value(s[3]) * 16 + hex_value(s[4]) == h.g);
    assert(hex_value(s[5]) * 16 + hex_value(s[6]) == h.b);
    assert forall|i: int| 0 <= i < s.len() implies s[i] != ' ' && s[i] != '\n' && !is_ws(
        #[trigger] s[i],
    ) by {}
}

/// One more line applied on top of the ones before it.
pub proof fn lemma_apply_push(ls: Seq<Seq<char>>, l: Seq<char>)
    ensures
        apply_lines(ls.push(l)) == apply_line(apply_lines(ls), l),
{
    assert(ls.push(l).drop_last() =~= ls);
}

/// A rendered group of at most one line, applied after earlier lines.
pub proof fn lemma_apply_group(ls: Seq<Seq<char>>, g: Seq<Seq<char>>)
    requires
        g.len() <= 1,
    ensures
        apply_lines(ls + g) == (if g.len() == 0 {
            apply_lines(ls)
        } else {
            apply_line(apply_lines(ls), g[0])
        }),
{
    if g.len() == 0 {
        assert(ls + g =~= ls);
    } else {
        assert(ls + g =~= ls.push(g[0]));
        lemma_apply_push(ls, g[0]);
    }
}

/// Distinct keys: a rendered key never matches another field's key.
proof fn lemma_keys_distinct()
    ensures
        plain_key("osk"@),
        plain_key("logo"@),
        plain_key("logo_res"@),
        plain_key("logo_size"@),
        plain_key("accent"@),
        plain_key("crt"@),
        "osk"@ != "logo"@,
        "osk"@ != "logo_res"@,
        "osk"@ != "logo_size"@,
        "osk"@ != "accent"@,
        "osk"@ != "crt"@,
        "logo"@ != "logo_res"@,
        "logo"@ != "logo_size"@,
        "logo"@ != "accent"@,
        "logo"@ != "crt"@,
        "logo_res"@ != "logo_size"@,
        "logo_res"@ != "accent"@,
        "logo_res"@ != "crt"@,
        "logo_size"@ != "accent"@,
        "logo_size"@ != "crt"@,
        "accent"@ != "crt"@,
{
    reveal_strlit("osk");
    reveal_strlit("logo");
    reveal_strlit("logo_res");
    reveal_strlit("logo_size");
    reveal_strlit("accent");
    reveal_strlit("crt");
    assert("logo"@.len() != "logo_res"@.len());
}

proof fn lemma_osk_line(c: SpecConfig)
    ensures
        apply_line(c, "osk = disabled"@) == (SpecConfig { osk: false, ..c }),
        plain_line("osk = disabled"@),
{
    lemma_keys_distinct();
    reveal_strlit("osk");
    reveal_strlit("disabled");
    reveal_strlit("enabled");
    reveal_strlit(" = ");
    reveal_strlit("osk = disabled");
    assert("osk = disabled"@ =~= "osk"@ + " = "@ + "disabled"@);
    assert("disabled"@[0] != "enabled"@[0]);
    lemma_apply_kv(c, "osk"@, "disabled"@);
}

/// The documented `osk` values mean what they say, whatever came before:
/// the line `osk = enabled` turns the on-screen keyboard on and
/// `osk = disabled` turns it off, and neither touches another setting. A
/// file holding just one of those lines loads with the keyboard on or off.
pub proof fn law_osk_keywords(c: SpecConfig)
    ensures
        apply_line(c, "osk = enabled"@) == (SpecConfig { osk: true, ..c }),
        apply_line(c, "osk = disabled"@) == (SpecConfig { osk: false, ..c }),
        apply_lines(seq!["osk = enabled"@]).osk,
        !apply_lines(seq!["osk = disabled"@]).osk,
{
    lemma_osk_line(c);
    lemma_keys_distinct();
    reveal_strlit("osk");
    reveal_strlit("disabled");
    reveal_strlit("enabled");
    reveal_strlit(" = ");
    reveal_strlit("osk = enabled");
    assert("osk = enabled"@ =~= "osk"@ + " = "@ + "enabled"@);
    lemma_apply_kv(c, "osk"@, "enabled"@);
    let d = default_config();
    lemma_osk_line(d);
    lemma_apply_kv(d, "osk"@, "enabled"@);
    let on = seq!["osk = enabled"@];
    let off = seq!["osk = disabled"@];
    assert(on.drop_last() =~= Seq::<Seq<char>>::empty());
    assert(off.drop_last() =~= Seq::<Seq<char>>::empty());
    assert(apply_lines(Seq::<Seq<char>>::empty()) == d);
    assert(apply_lines(on.drop_last()) == d);
    assert(on.len() == 1 && on.last() == "osk = enabled"@);
    assert(off.len() == 1 && off.last() == "osk = disabled"@);
    assert(apply_lines(on) == apply_line(d, "osk = enabled"@));
    assert(apply_lines(off.drop_last()) == d);
    assert(apply_lines(off) == apply_line(d, "osk = disabled"@));
}

proof fn lemma_logo_line(c: SpecConfig, logo: SpecLogo)
    requires
        logo != SpecLogo::Legacy,
        saveable(SpecConfig { logo: logo, ..c }),
    ensures
        ({
            let l = match logo {
                SpecLogo::Key(k) => "logo = "@ + k,
                _ => "logo = none"@,
            };
            apply_line(c, l) == SpecConfig { logo: logo, ..c } && plain_line(l)
        }),
{
    lemma_keys_distinct();
    reveal_strlit("logo");
    reveal_strlit("none");
    reveal_strlit("legacy");
    reveal_strlit(" = ");
    reveal_strlit("logo = none");
    reveal_strlit("logo = ");
    match logo {
        SpecLogo::Key(k) => {
            lemma_key_plain(k);
            assert("logo = "@ + k =~= "logo"@ + " = "@ + k);
            lemma_apply_kv(c, "logo"@, k);
        },
        _ => {
            assert("logo = none"@ =~= "logo"@ + " = "@ + "none"@);
            assert("none"@.len() != "legacy"@.len());
            lemma_apply_kv(c, "logo"@, "none"@);
        },
    }
}

proof fn lemma_res_line(c: SpecConfig, r: LogoRes)
    ensures
        apply_line(c, "logo_res = "@ + r.spec_name()) == (SpecConfig { logo_res: r, ..c }),
        plain_line("logo_res = "@ + r.spec_name()),
{
    lemma_keys_distinct();
    reveal_strlit("logo_res");
    reveal_strlit("high");
    reveal_strlit("medium");
    reveal_strlit("low");
    reveal_strlit(" = ");
    reveal_strlit("logo_res = ");
    assert("logo_res = "@ + r.spec_name() =~= "logo_res"@ + " = "@ + r.spec_name());
    assert("high"@.len() != "medium"@.len() && "high"@.len() != "low"@.len());
    assert("medium"@.len() != "low"@.len());
    lemma_apply_kv(c, "logo_res"@, r.spec_name());
}

proof fn lemma_size_line(c: SpecConfig, z: LogoSize)
    ensures
        apply_line(c, "logo_size = "@ + z.spec_name()) == (SpecConfig { logo_size: z, ..c }),
        plain_line("logo_size = "@ + z.spec_name()),
{
    lemma_keys_distinct();
    reveal_strlit("logo_size");
    reveal_strlit("large");
    reveal_strlit("medium");
    reveal_strlit("small");
    reveal_strlit(" = ");
    reveal_strlit("logo_size = ");
    assert("logo_size = "@ + z.spec_name() =~= "logo_size"@ + " = "@ + z.spec_name());
    assert("large"@.len() != "medium"@.len() && "small"@.len() != "medium"@.len());
    assert("large"@[0] != "small"@[0]);
    lemma_apply_kv(c, "logo_size"@, z.spec_name());
}

proof fn lemma_accent_line(c: SpecConfig, h: HexColor)
    ensures
        apply_line(c, "accent = "@ + h.spec_to_hex()) == (SpecConfig { accent: Some(h), ..c }),
        plain_line("accent = "@ + h.spec_to_hex()),
{
    lemma_keys_distinct();
    reveal_strlit("accent");
    reveal_strlit(" = ");
    reveal_strlit("accent = ");
    assert("accent = "@ + h.spec_to_hex() =~= "accent"@ + " = "@ + h.spec_to_hex());
    lemma_hex_roundtrip(h);
    lemma_apply_kv(c, "accent"@, h.spec_to_hex());
}

proof fn lemma_crt_line(c: SpecConfig, t: Crt)
    requires
        t != Crt::Strong,
    ensures
        ({
            let l = if t == Crt::Subtle { "crt = subtle"@ } else { "crt = off"@ };
            apply_line(c, l) == SpecConfig { crt: t, ..c } && plain_line(l)
        }),
{
    lemma_keys_distinct();
    reveal_strlit("crt");
    reveal_strlit("strong");
    reveal_strlit("subtle");
    reveal_strlit("off");
    reveal_strlit(" = ");
    reveal_strlit("crt = subtle");
    reveal_strlit("crt = off");
    assert("subtle"@[1] != "strong"@[1]);
    assert("off"@.len() != "subtle"@.len() && "off"@.len() != "strong"@.len());
    if t == Crt::Subtle {
        assert("crt = subtle"@ =~= "crt"@ + " = "@ + "subtle"@);
        lemma_apply_kv(c, "crt"@, "subtle"@);
    } else {
        assert("crt = off"@ =~= "crt"@ + " = "@ + "off"@);
        lemma_apply_kv(c, "crt"@, "off"@);
    }
}

/// Every line is one the line splitter gives back unchanged.
pub open spec fn all_plain(ls: Seq<Seq<char>>) -> bool {
    forall|i: int| 0 <= i < ls.len() ==> plain_line(#[trigger] ls[i])
}

pub proof fn lemma_all_plain_concat(a: Seq<Seq<char>>, b: Seq<Seq<char>>)
    requires
        all_plain(a),
        all_plain(b),
    ensures
        all_plain(a + b),
{
    assert forall|i: int| 0 <= i < (a + b).len() implies plain_line(#[trigger] (a + b)[i]) by {
        if i >= a.len() {
            assert((a + b)[i] == b[i - a.len()]);
        }
    }
}

/// A valid logo key is a plain value.
proof fn lemma_key_plain(k: Seq<char>)
    requires
        spec_valid_logo_key(k),
    ensures
        plain_value(k),
{
    assert(is_key_char(k[0]));
    assert(is_key_char(k[k.len() - 1]));
    assert forall|i: int| 0 <= i < k.len() implies k[i] != ' ' && k[i] != '\n' by {
        assert(is_key_char(k[i]));
    }
}

/// Saving then loading gives the config back: `parse_config` of what
/// `render_config` wrote is the config itself, for every config that
/// `render_config` accepts (its logo key, if any, is valid and is not one
/// of the words `legacy` and `none`).
pub proof fn law_save_load_roundtrip(cfg: SpecConfig)
    requires
        saveable(cfg),
    ensures
        spec_parse_config(spec_render_config(cfg)) == cfg,
{
    let d = default_config();
    let a = osk_lines(cfg);
    let b = logo_lines(cfg);
    let r = res_lines(cfg);
    let z = size_lines(cfg);
    let x = accent_lines(cfg);
    let t = crt_lines(cfg);
    lemma_apply_group(Seq::empty(), a);
    if !cfg.osk {
        lemma_osk_line(d);
    }
    assert(Seq::<Seq<char>>::empty() + a =~= a);
    let c1 = apply_lines(a);
    assert(c1 == SpecConfig { osk: cfg.osk, ..d });
    lemma_apply_group(a, b);
    if cfg.logo != SpecLogo::Legacy {
        lemma_logo_line(c1, cfg.logo);
    }
    let c2 = apply_lines(a + b);
    assert(c2 == SpecConfig { osk: cfg.osk, logo: cfg.logo, ..d });
    lemma_apply_group(a + b, r);
    if cfg.logo_res != LogoRes::High {
        lemma_res_line(c2, cfg.logo_res);
    }
    let c3 = apply_lines(a + b + r);
    assert(c3 == SpecConfig { osk: cfg.osk, logo: cfg.logo, logo_res: cfg.logo_res, ..d });
    lemma_apply_group(a + b + r, z);
    if cfg.logo_size != LogoSize::Large {
        lemma_size_line(c3, cfg.logo_size);
    }
    let c4 = apply_lines(a + b + r + z);
    assert(c4 == SpecConfig { crt: Crt::Strong, accent: None, ..cfg });
    lemma_apply_group(a + b + r + z, x);
    if let Some(h) = cfg.accent {
        lemma_accent_line(c4, h);
    }
    let c5 = apply_lines(a + b + r + z + x);
    assert(c5 == SpecConfig { crt: Crt::Strong, ..cfg });
    lemma_apply_group(a + b + r + z + x, t);
    if cfg.crt != Crt::Strong {
        lemma_crt_line(c5, cfg.crt);
    }
    assert(apply_lines(config_lines(cfg)) == cfg);
    // and the rendered text splits back into exactly those lines
    assert(all_plain(a));
    assert(all_plain(b));
    assert(all_plain(r));
    assert(all_plain(z));
    assert(all_plain(x));
    assert(all_plain(t));
    lemma_all_plain_concat(a, b);
    lemma_all_plain_concat(a + b, r);
    lemma_all_plain_concat(a + b + r, z);
    lemma_all_plain_concat(a + b + r + z, x);
    lemma_all_plain_concat(a + b + r + z + x, t);
    lemma_lines_join(config_lines(cfg));
}

/// Each resolution tier's name parses back as that tier.
pub proof fn law_res_name_parses_back(r: LogoRes)
    ensures
        LogoRes::spec_parse(r.spec_name()) == Some(r),
{
    reveal_strlit("high");
    reveal_strlit("medium");
    reveal_strlit("low");
    assert("high"@.len() != "medium"@.len() && "high"@.len() != "low"@.len());
    assert("medium"@.len() != "low"@.len());
}

/// Each logo size's name parses back as that size.
pub proof fn law_size_name_parses_back(z: LogoSize)
    ensures
        LogoSize::spec_parse(z.spec_name()) == Some(z),
{
    reveal_strlit("large");
    reveal_strlit("medium");
    reveal_strlit("small");
    assert("large"@.len() != "medium"@.len() && "small"@.len() != "medium"@.len());
    assert("large"@[0] != "small"@[0]);
}

/// The stock config saves as an empty file, and an empty file loads as
/// the stock config.
pub proof fn law_default_is_empty_file()
    ensures
        spec_render_config(default_config()) == Seq::<char>::empty(),
        spec_parse_config(Seq::<char>::empty()) == default_config(),
{
    let d = default_config();
    assert(config_lines(d) =~= Seq::<Seq<char>>::empty());
}

/// Why a config cannot be saved.
#[derive(Debug, Clone, PartialEq)]
pub enum ConfigError {
    /// the logo key would not read back as itself: it is not a valid key,
    /// or it spells one of the keywords `legacy` and `none`
    UnwritableLogoKey(String),
}

/// The config file text: only the non-default lines, so a default config
/// is an empty file. A config whose logo key would not read back as
/// itself is refused, so that what is saved always loads back unchanged.
pub fn render_config(cfg: &Config) -> (r: Result<String, ConfigError>)
    ensures
        r is Ok <==> saveable(cfg@),
        r matches Ok(t) ==> t@ == spec_render_config(cfg@) && spec_parse_config(t@) == cfg@,
        r matches Err(ConfigError::UnwritableLogoKey(k)) ==> cfg@.logo == SpecLogo::Key(k@),
{
    match &cfg.logo {
        Logo::Key(k) => {
            if !valid_logo_key(k.as_str()) || crate::text::str_eq(k.as_str(), "legacy")
                || crate::text::str_eq(k.as_str(), "none") {
                return Err(ConfigError::UnwritableLogoKey(k.clone()));
            }
        },
        _ => {},
    }
    let t = config_text(cfg);
    proof {
        law_save_load_roundtrip(cfg@);
    }
    Ok(t)
}

} // verus!

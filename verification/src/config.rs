//! The persisted configuration: selected device, active mode, custom modes and
//! the desired noise, immersive and EQ settings, with the rules that keep it valid.
use vstd::prelude::*;
use crate::domain::{
    DeviceRef, DeviceView, ImmersiveAudio, ModePreset, ModeView, NoiseControl, builtin_mode_views,
    builtin_modes, clone_opt_string, eq_valid, mode_views, noise_valid, opt_text, quiet_view,
    validate_mode_name,
};
use crate::text::{eq_ignore_case, str_eq_ignore_ascii_case, trim};

verus! {

/// How many custom modes the headphones can hold.
pub const MAX_CUSTOM_MODES: usize = 7;

pub const CONFIG_DIR: &'static str = ".config/bosecli";

pub const CONFIG_FILE_NAME: &'static str = "config.toml";

/// Appending a relative path component to a path, as `PathBuf::join` does on
/// Unix when the component does not start with `/`.
pub open spec fn path_join(base: Seq<char>, rel: Seq<char>) -> Seq<char> {
    if base.len() == 0 || base.last() == '/' {
        base + rel
    } else {
        base + seq!['/'] + rel
    }
}

pub open spec fn config_path_from_home(home: Seq<char>) -> Seq<char> {
    path_join(path_join(home, ".config/bosecli"@), "config.toml"@)
}

fn join_into(base: &mut String, rel: &str)
    ensures
        final(base)@ == path_join(old(base)@, rel@),
{
    let n = base.as_str().unicode_len();
    if n > 0 && base.as_str().get_char(n - 1) != '/' {
        base.append("/");
        base.append(rel);
        assert(final(base)@ =~= old(base)@ + seq!['/'] + rel@) by {
            reveal_strlit("/");
        }
    } else {
        base.append(rel);
    }
}

/// `$HOME/.config/bosecli/config.toml`, for a given home directory.
pub fn default_config_path_from_home(home: &str) -> (r: String)
    ensures
        r@ == config_path_from_home(home@),
{
    let mut p = String::from_str(home);
    join_into(&mut p, CONFIG_DIR);
    join_into(&mut p, CONFIG_FILE_NAME);
    p
}

/// The persisted configuration.
#[derive(Debug)]
pub struct ConfigFile {
    pub selected_device: Option<DeviceRef>,
    pub active_mode: Option<String>,
    pub custom_modes: Vec<ModePreset>,
    pub noise: NoiseControl,
    pub immersive: ImmersiveAudio,
    pub eq: crate::domain::Eq,
}

pub struct ConfigView {
    pub selected_device: Option<DeviceView>,
    pub active_mode: Option<Seq<char>>,
    pub custom_modes: Seq<ModeView>,
    pub noise: NoiseControl,
    pub immersive: ImmersiveAudio,
    pub eq: crate::domain::Eq,
}

pub open spec fn opt_device_view(d: Option<DeviceRef>) -> Option<DeviceView> {
    match d {
        Some(d) => Some(d@),
        None => None,
    }
}

impl View for ConfigFile {
    type V = ConfigView;

    open spec fn view(&self) -> ConfigView {
        ConfigView {
            selected_device: opt_device_view(self.selected_device),
            active_mode: opt_text(self.active_mode),
            custom_modes: mode_views(self.custom_modes@),
            noise: self.noise,
            immersive: self.immersive,
            eq: self.eq,
        }
    }
}

pub fn clone_modes(v: &Vec<ModePreset>) -> (r: Vec<ModePreset>)
    ensures
        r@ == v@,
{
    let mut out: Vec<ModePreset> = Vec::new();
    let n = v.len();
    for i in 0..n
        invariant
            n == v@.len(),
            out@ == v@.take(i as int),
    {
        out.push(v[i].clone());
        assert(out@ =~= v@.take(i + 1));
    }
    assert(v@.take(n as int) =~= v@);
    out
}

impl Clone for ConfigFile {
    fn clone(&self) -> (r: Self)
        ensures
            r@ == self@,
    {
        let selected_device = match &self.selected_device {
            Some(d) => Some(d.clone()),
            None => None,
        };
        ConfigFile {
            selected_device,
            active_mode: clone_opt_string(&self.active_mode),
            custom_modes: clone_modes(&self.custom_modes),
            noise: self.noise,
            immersive: self.immersive,
            eq: self.eq,
        }
    }
}

pub proof fn lemma_mode_views(s: Seq<ModePreset>)
    ensures
        mode_views(s).len() == s.len(),
        forall|i: int| 0 <= i < s.len() ==> #[trigger] mode_views(s)[i] == s[i]@,
{
}

pub open spec fn default_eq_value() -> crate::domain::Eq {
    crate::domain::Eq { bass: 0, mid: 0, treble: 0 }
}

/// The configuration used when none is saved: the Quiet preset, flat EQ, no device.
pub open spec fn default_config_view() -> ConfigView {
    ConfigView {
        selected_device: None,
        active_mode: Some(quiet_view().name),
        custom_modes: Seq::empty(),
        noise: quiet_view().noise,
        immersive: quiet_view().immersive,
        eq: default_eq_value(),
    }
}

fn quiet_preset() -> (r: ModePreset)
    ensures
        r@ == quiet_view(),
{
    let mut modes = builtin_modes();
    proof {
        lemma_mode_views(modes@);
    }
    modes.remove(0)
}

/// The noise setting of the Quiet preset.
pub fn default_noise() -> (r: NoiseControl)
    ensures
        r == quiet_view().noise,
{
    quiet_preset().noise
}

/// The immersive setting of the Quiet preset.
pub fn default_immersive() -> (r: ImmersiveAudio)
    ensures
        r == quiet_view().immersive,
{
    quiet_preset().immersive
}

/// A flat EQ.
pub fn default_eq() -> (r: crate::domain::Eq)
    ensures
        r == default_eq_value(),
{
    crate::domain::Eq { bass: 0, mid: 0, treble: 0 }
}

impl Default for ConfigFile {
    fn default() -> (r: Self)
        ensures
            r@ == default_config_view(),
    {
        let quiet = quiet_preset();
        let r = ConfigFile {
            selected_device: None,
            active_mode: Some(quiet.name),
            custom_modes: Vec::new(),
            noise: quiet.noise,
            immersive: quiet.immersive,
            eq: default_eq(),
        };
        assert(r@.custom_modes =~= Seq::<ModeView>::empty());
        r
    }
}

/// The first mode, in order, whose name equals `name` ignoring ASCII case.
pub open spec fn find_named(ms: Seq<ModeView>, name: Seq<char>) -> Option<ModeView>
    decreases ms.len(),
{
    if ms.len() == 0 {
        None
    } else if eq_ignore_case(ms[0].name, name) {
        Some(ms[0])
    } else {
        find_named(ms.drop_first(), name)
    }
}

pub proof fn lemma_find_named_skip(ms: Seq<ModeView>, name: Seq<char>, i: int)
    requires
        0 <= i <= ms.len(),
        forall|j: int| 0 <= j < i ==> !eq_ignore_case(#[trigger] ms[j].name, name),
    ensures
        find_named(ms, name) == find_named(ms.skip(i), name),
    decreases i,
{
    if i > 0 {
        let d = ms.drop_first();
        assert forall|j: int| 0 <= j < i - 1 implies !eq_ignore_case(#[trigger] d[j].name, name) by {
            assert(d[j] == ms[j + 1]);
        }
        lemma_find_named_skip(d, name, i - 1);
        assert(d.skip(i - 1) =~= ms.skip(i));
    } else {
        assert(ms.skip(0) =~= ms);
    }
}

pub proof fn lemma_find_named_none(ms: Seq<ModeView>, name: Seq<char>)
    requires
        forall|j: int| 0 <= j < ms.len() ==> !eq_ignore_case(#[trigger] ms[j].name, name),
    ensures
        find_named(ms, name) is None,
{
    lemma_find_named_skip(ms, name, ms.len() as int);
}

pub proof fn lemma_find_named_at(ms: Seq<ModeView>, name: Seq<char>, i: int)
    requires
        0 <= i < ms.len(),
        forall|j: int| 0 <= j < i ==> !eq_ignore_case(#[trigger] ms[j].name, name),
        eq_ignore_case(ms[i].name, name),
    ensures
        find_named(ms, name) == Some(ms[i]),
{
    lemma_find_named_skip(ms, name, i);
    assert(ms.skip(i)[0] == ms[i]);
}

/// Whether any mode of `ms` is named `name`, ignoring ASCII case.
pub open spec fn has_named(ms: Seq<ModeView>, name: Seq<char>) -> bool {
    exists|j: int| 0 <= j < ms.len() && eq_ignore_case(#[trigger] ms[j].name, name)
}

pub proof fn lemma_find_named_some(ms: Seq<ModeView>, name: Seq<char>)
    ensures
        find_named(ms, name) is Some <==> has_named(ms, name),
        find_named(ms, name) matches Some(m) ==> eq_ignore_case(m.name, name) && ms.contains(m),
    decreases ms.len(),
{
    if ms.len() > 0 {
        let d = ms.drop_first();
        lemma_find_named_some(d, name);
        if has_named(d, name) {
            let j = choose|j: int| 0 <= j < d.len() && eq_ignore_case(#[trigger] d[j].name, name);
            assert(ms[j + 1] == d[j]);
        }
        if has_named(ms, name) && !eq_ignore_case(ms[0].name, name) {
            let j = choose|j: int| 0 <= j < ms.len() && eq_ignore_case(#[trigger] ms[j].name, name);
            assert(d[j - 1] == ms[j]);
        }
        if find_named(d, name) is Some {
            let m = find_named(d, name)->0;
            let k = choose|k: int| 0 <= k < d.len() && d[k] == m;
            assert(ms[k + 1] == m);
        }
    }
}

/// Index of the first mode named `name`, ignoring ASCII case.
pub fn position_named(modes: &Vec<ModePreset>, name: &str) -> (r: Option<usize>)
    ensures
        r is None ==> !has_named(mode_views(modes@), name@),
        r matches Some(i) ==> {
            &&& i < modes@.len()
            &&& eq_ignore_case(modes@[i as int].name@, name@)
            &&& forall|j: int| 0 <= j < i ==> !eq_ignore_case(#[trigger] modes@[j].name@, name@)
        },
{
    let n = modes.len();
    for i in 0..n
        invariant
            n == modes@.len(),
            forall|j: int| 0 <= j < i ==> !eq_ignore_case(#[trigger] modes@[j].name@, name@),
    {
        if str_eq_ignore_ascii_case(modes[i].name.as_str(), name) {
            return Some(i);
        }
    }
    proof {
        let ms = mode_views(modes@);
        if has_named(ms, name@) {
            let j = choose|j: int| 0 <= j < ms.len() && eq_ignore_case(#[trigger] ms[j].name, name@);
            assert(ms[j] == modes@[j]@);
        }
    }
    None
}

pub open spec fn all_mode_views(c: ConfigView) -> Seq<ModeView> {
    builtin_mode_views() + c.custom_modes
}

/// Insert `m` before the first mode whose name sorts after it.
pub open spec fn insert_sorted(ms: Seq<ModeView>, m: ModeView) -> Seq<ModeView>
    decreases ms.len(),
{
    if ms.len() == 0 {
        seq![m]
    } else if lex_less(m.name, ms[0].name) {
        seq![m] + ms
    } else {
        seq![ms[0]] + insert_sorted(ms.drop_first(), m)
    }
}

/// Modes stably sorted by name, as `sort_by` with `String::cmp` orders them.
pub open spec fn sort_by_name(ms: Seq<ModeView>) -> Seq<ModeView>
    decreases ms.len(),
{
    if ms.len() == 0 {
        ms
    } else {
        insert_sorted(sort_by_name(ms.drop_last()), ms.last())
    }
}

/// Lexicographic order on characters, which is the byte order of UTF-8 strings.
pub open spec fn lex_less(a: Seq<char>, b: Seq<char>) -> bool
    decreases a.len(),
{
    if b.len() == 0 {
        false
    } else if a.len() == 0 {
        true
    } else if a[0] < b[0] {
        true
    } else if a[0] == b[0] {
        lex_less(a.drop_first(), b.drop_first())
    } else {
        false
    }
}

pub fn str_less(a: &str, b: &str) -> (r: bool)
    ensures
        r == lex_less(a@, b@),
{
    let n = a.unicode_len();
    let m = b.unicode_len();
    let mut i: usize = 0;
    assert(a@.skip(0) =~= a@ && b@.skip(0) =~= b@);
    while i < n && i < m
        invariant
            n == a@.len(),
            m == b@.len(),
            i <= n,
            i <= m,
            lex_less(a@, b@) == lex_less(a@.skip(i as int), b@.skip(i as int)),
        decreases n - i,
    {
        let x = a.get_char(i);
        let y = b.get_char(i);
        proof {
            let sa = a@.skip(i as int);
            let sb = b@.skip(i as int);
            assert(sa[0] == x && sb[0] == y);
            assert(sa.drop_first() =~= a@.skip(i + 1));
            assert(sb.drop_first() =~= b@.skip(i + 1));
        }
        if x < y {
            return true;
        }
        if x != y {
            return false;
        }
        i = i + 1;
    }
    i < m
}

fn insert_mode_sorted(v: &mut Vec<ModePreset>, m: ModePreset)
    ensures
        mode_views(final(v)@) == insert_sorted(mode_views(old(v)@), m@),
{
    let n = v.len();
    let mut k: usize = 0;
    assert(old(v)@.skip(0) =~= old(v)@);
    assert(mode_views(old(v)@.take(0)) =~= Seq::<ModeView>::empty());
    while k < n && !str_less(m.name.as_str(), v[k].name.as_str())
        invariant
            n == v@.len(),
            k <= n,
            v@ == old(v)@,
            insert_sorted(mode_views(old(v)@), m@) == mode_views(old(v)@.take(k as int))
                + insert_sorted(mode_views(old(v)@.skip(k as int)), m@),
        decreases n - k,
    {
        proof {
            let ms = mode_views(old(v)@.skip(k as int));
            assert(ms[0] == old(v)@[k as int]@);
            assert(ms.drop_first() =~= mode_views(old(v)@.skip(k + 1)));
            assert(mode_views(old(v)@.take(k + 1)) =~= mode_views(old(v)@.take(k as int)) + seq![ms[0]]);
        }
        k = k + 1;
    }
    proof {
        let ms = mode_views(old(v)@.skip(k as int));
        if k < n {
            assert(ms[0] == old(v)@[k as int]@);
        }
    }
    v.insert(k, m);
    proof {
        let ms = mode_views(old(v)@.skip(k as int));
        assert(mode_views(final(v)@) =~= mode_views(old(v)@.take(k as int)) + (seq![m@] + ms));
    }
}

/// The modes of `ms` whose names differ from `name`, ignoring ASCII case.
pub open spec fn without_named(ms: Seq<ModeView>, name: Seq<char>) -> Seq<ModeView>
    decreases ms.len(),
{
    if ms.len() == 0 {
        ms
    } else if eq_ignore_case(ms.last().name, name) {
        without_named(ms.drop_last(), name)
    } else {
        without_named(ms.drop_last(), name).push(ms.last())
    }
}

/// Removing modes by name never adds any, and removes one exactly when the
/// length drops.
pub proof fn lemma_without_named_len(ms: Seq<ModeView>, name: Seq<char>)
    ensures
        without_named(ms, name).len() <= ms.len(),
        without_named(ms, name).len() == ms.len() ==> without_named(ms, name) == ms,
    decreases ms.len(),
{
    if ms.len() > 0 {
        lemma_without_named_len(ms.drop_last(), name);
        if without_named(ms, name).len() == ms.len() {
            assert(!eq_ignore_case(ms.last().name, name));
            assert(ms.drop_last().push(ms.last()) =~= ms);
        }
    }
}

/// The name of the first mode whose noise and immersive settings are the given ones.
pub open spec fn first_with_audio(
    ms: Seq<ModeView>,
    noise: NoiseControl,
    immersive: ImmersiveAudio,
) -> Option<Seq<char>>
    decreases ms.len(),
{
    if ms.len() == 0 {
        None
    } else if ms[0].noise == noise && ms[0].immersive == immersive {
        Some(ms[0].name)
    } else {
        first_with_audio(ms.drop_first(), noise, immersive)
    }
}

/// Errors of configuration checks and edits.
#[derive(Debug)]
pub enum ConfigError {
    InvalidNoise,
    InvalidEq,
    TooManyCustomModes,
    InvalidCustomMode,
    CustomModeWhitespace(String),
    CustomModeConflictsBuiltin(String),
    DuplicateCustomMode(String),
    InvalidModeNoise(String),
    InvalidActiveMode,
    ActiveModeMissing(String),
    CannotReplaceBuiltin(String),
    CustomModeLimit,
}

pub enum ConfigErrorView {
    InvalidNoise,
    InvalidEq,
    TooManyCustomModes,
    InvalidCustomMode,
    CustomModeWhitespace(Seq<char>),
    CustomModeConflictsBuiltin(Seq<char>),
    DuplicateCustomMode(Seq<char>),
    InvalidModeNoise(Seq<char>),
    InvalidActiveMode,
    ActiveModeMissing(Seq<char>),
    CannotReplaceBuiltin(Seq<char>),
    CustomModeLimit,
}

impl View for ConfigError {
    type V = ConfigErrorView;

    open spec fn view(&self) -> ConfigErrorView {
        match self {
            ConfigError::InvalidNoise => ConfigErrorView::InvalidNoise,
            ConfigError::InvalidEq => ConfigErrorView::InvalidEq,
            ConfigError::TooManyCustomModes => ConfigErrorView::TooManyCustomModes,
            ConfigError::InvalidCustomMode => ConfigErrorView::InvalidCustomMode,
            ConfigError::CustomModeWhitespace(s) => ConfigErrorView::CustomModeWhitespace(s@),
            ConfigError::CustomModeConflictsBuiltin(s) => ConfigErrorView::CustomModeConflictsBuiltin(
                s@,
            ),
            ConfigError::DuplicateCustomMode(s) => ConfigErrorView::DuplicateCustomMode(s@),
            ConfigError::InvalidModeNoise(s) => ConfigErrorView::InvalidModeNoise(s@),
            ConfigError::InvalidActiveMode => ConfigErrorView::InvalidActiveMode,
            ConfigError::ActiveModeMissing(s) => ConfigErrorView::ActiveModeMissing(s@),
            ConfigError::CannotReplaceBuiltin(s) => ConfigErrorView::CannotReplaceBuiltin(s@),
            ConfigError::CustomModeLimit => ConfigErrorView::CustomModeLimit,
        }
    }
}

pub open spec fn quoted(before: Seq<char>, name: Seq<char>, after: Seq<char>) -> Seq<char> {
    before + name + after
}

pub open spec fn config_error_text(e: ConfigErrorView) -> Seq<char> {
    match e {
        ConfigErrorView::InvalidNoise => "invalid noise config"@,
        ConfigErrorView::InvalidEq => "invalid eq config"@,
        ConfigErrorView::TooManyCustomModes => "config has more than 7 custom modes"@,
        ConfigErrorView::InvalidCustomMode => "invalid custom mode"@,
        ConfigErrorView::CustomModeWhitespace(n) => quoted(
            "custom mode '"@,
            n,
            "' has leading or trailing whitespace"@,
        ),
        ConfigErrorView::CustomModeConflictsBuiltin(n) => quoted(
            "custom mode '"@,
            n,
            "' conflicts with a built-in mode"@,
        ),
        ConfigErrorView::DuplicateCustomMode(n) => quoted("duplicate custom mode '"@, n, "'"@),
        ConfigErrorView::InvalidModeNoise(n) => quoted(
            "invalid noise config for mode '"@,
            n,
            "'"@,
        ),
        ConfigErrorView::InvalidActiveMode => "invalid active mode"@,
        ConfigErrorView::ActiveModeMissing(n) => quoted("active mode '"@, n, "' does not exist"@),
        ConfigErrorView::CannotReplaceBuiltin(n) => quoted(
            "cannot replace built-in mode '"@,
            n,
            "'"@,
        ),
        ConfigErrorView::CustomModeLimit => "headphones support up to 7 custom modes"@,
    }
}

fn quote_name(before: &str, name: &String, after: &str) -> (r: String)
    ensures
        r@ == quoted(before@, name@, after@),
{
    let mut s = String::from_str(before);
    s.append(name.as_str());
    s.append(after);
    s
}

impl ConfigError {
    pub fn message(&self) -> (r: String)
        ensures
            r@ == config_error_text(self@),
    {
        match self {
            ConfigError::InvalidNoise => String::from_str("invalid noise config"),
            ConfigError::InvalidEq => String::from_str("invalid eq config"),
            ConfigError::TooManyCustomModes => String::from_str(
                "config has more than 7 custom modes",
            ),
            ConfigError::InvalidCustomMode => String::from_str("invalid custom mode"),
            ConfigError::CustomModeWhitespace(n) => quote_name(
                "custom mode '",
                n,
                "' has leading or trailing whitespace",
            ),
            ConfigError::CustomModeConflictsBuiltin(n) => quote_name(
                "custom mode '",
                n,
                "' conflicts with a built-in mode",
            ),
            ConfigError::DuplicateCustomMode(n) => quote_name("duplicate custom mode '", n, "'"),
            ConfigError::InvalidModeNoise(n) => quote_name(
                "invalid noise config for mode '",
                n,
                "'",
            ),
            ConfigError::InvalidActiveMode => String::from_str("invalid active mode"),
            ConfigError::ActiveModeMissing(n) => quote_name("active mode '", n, "' does not exist"),
            ConfigError::CannotReplaceBuiltin(n) => quote_name(
                "cannot replace built-in mode '",
                n,
                "'",
            ),
            ConfigError::CustomModeLimit => String::from_str(
                "headphones support up to 7 custom modes",
            ),
        }
    }
}

/// The check of the custom mode at index `i`, given that those before it passed.
pub open spec fn custom_mode_error(ms: Seq<ModeView>, i: int) -> Option<ConfigErrorView> {
    let m = ms[i];
    if trim(m.name).len() == 0 {
        Some(ConfigErrorView::InvalidCustomMode)
    } else if trim(m.name) != m.name {
        Some(ConfigErrorView::CustomModeWhitespace(m.name))
    } else if has_named(builtin_mode_views(), m.name) {
        Some(ConfigErrorView::CustomModeConflictsBuiltin(m.name))
    } else if has_named(ms.take(i), m.name) {
        Some(ConfigErrorView::DuplicateCustomMode(m.name))
    } else if !noise_valid(m.noise) {
        Some(ConfigErrorView::InvalidModeNoise(m.name))
    } else {
        None
    }
}

/// The first failing check among the custom modes from index `i` on.
pub open spec fn first_custom_error(ms: Seq<ModeView>, i: int) -> Option<ConfigErrorView>
    decreases ms.len() - i,
{
    if i < 0 || i >= ms.len() {
        None
    } else if custom_mode_error(ms, i) is Some {
        custom_mode_error(ms, i)
    } else {
        first_custom_error(ms, i + 1)
    }
}

/// The first failing check of a configuration, in the order `validate` runs them.
pub open spec fn config_error(c: ConfigView) -> Option<ConfigErrorView> {
    if !noise_valid(c.noise) {
        Some(ConfigErrorView::InvalidNoise)
    } else if !eq_valid(c.eq) {
        Some(ConfigErrorView::InvalidEq)
    } else if c.custom_modes.len() > 7 {
        Some(ConfigErrorView::TooManyCustomModes)
    } else if first_custom_error(c.custom_modes, 0) is Some {
        first_custom_error(c.custom_modes, 0)
    } else {
        match c.active_mode {
            None => None,
            Some(a) => if trim(a).len() == 0 {
                Some(ConfigErrorView::InvalidActiveMode)
            } else if find_named(all_mode_views(c), a) is None {
                Some(ConfigErrorView::ActiveModeMissing(a))
            } else {
                None
            },
        }
    }
}

pub open spec fn config_valid(c: ConfigView) -> bool {
    config_error(c) is None
}

pub fn is_builtin_name(name: &str) -> (r: bool)
    ensures
        r == has_named(builtin_mode_views(), name@),
{
    let b = builtin_modes();
    let p = position_named(&b, name);
    proof {
        lemma_mode_views(b@);
        if let Some(i) = p {
            assert(mode_views(b@)[i as int] == b@[i as int]@);
            assert(eq_ignore_case(builtin_mode_views()[i as int].name, name@));
        }
    }
    p.is_some()
}

impl ConfigFile {
    /// The built-in modes followed by the custom ones.
    pub fn all_modes(&self) -> (r: Vec<ModePreset>)
        ensures
            mode_views(r@) == all_mode_views(self@),
    {
        let mut modes = builtin_modes();
        let n = self.custom_modes.len();
        let ghost b = mode_views(modes@);
        assert(mode_views(self.custom_modes@.take(0)) =~= Seq::<ModeView>::empty());
        for i in 0..n
            invariant
                n == self.custom_modes@.len(),
                mode_views(modes@) == b + mode_views(self.custom_modes@.take(i as int)),
        {
            let ghost before = modes@;
            modes.push(self.custom_modes[i].clone());
            proof {
                lemma_mode_views(modes@);
                lemma_mode_views(before);
                lemma_mode_views(self.custom_modes@.take(i + 1));
                lemma_mode_views(self.custom_modes@.take(i as int));
                assert(mode_views(modes@) =~= mode_views(before).push(self.custom_modes@[i as int]@));
                assert(mode_views(self.custom_modes@.take(i + 1)) =~= mode_views(
                    self.custom_modes@.take(i as int),
                ).push(self.custom_modes@[i as int]@));
            }
        }
        assert(self.custom_modes@.take(n as int) =~= self.custom_modes@);
        modes
    }

    /// The first mode, built-ins first, whose name is `name` ignoring ASCII case.
    pub fn find_mode(&self, name: &str) -> (r: Option<ModePreset>)
        ensures
            opt_mode_view(r) == find_named(all_mode_views(self@), name@),
    {
        let mut modes = self.all_modes();
        let p = position_named(&modes, name);
        proof {
            let ms = mode_views(modes@);
            match p {
                Some(i) => {
                    assert forall|j: int| 0 <= j < i implies !eq_ignore_case(
                        #[trigger] ms[j].name,
                        name@,
                    ) by {
                        assert(ms[j] == modes@[j]@);
                    }
                    assert(ms[i as int] == modes@[i as int]@);
                    lemma_find_named_at(ms, name@, i as int);
                },
                None => {
                    assert forall|j: int| 0 <= j < ms.len() implies !eq_ignore_case(
                        #[trigger] ms[j].name,
                        name@,
                    ) by {
                        if eq_ignore_case(ms[j].name, name@) {
                            assert(has_named(ms, name@));
                        }
                    }
                    lemma_find_named_none(ms, name@);
                },
            }
        }
        match p {
            Some(i) => Some(modes.remove(i)),
            None => None,
        }
    }

    /// Adds a custom mode, or replaces the custom mode of the same name
    /// (ignoring ASCII case). Built-in names are refused, and so is an eighth
    /// custom mode. A new mode is added and the list sorted by name.
    pub fn upsert_custom_mode(&mut self, mode: ModePreset) -> (r: Result<(), ConfigError>)
        ensures
            upsert_outcome(old(self)@, mode@) matches Ok(c) ==> r is Ok && final(self)@ == c,
            upsert_outcome(old(self)@, mode@) matches Err(e) ==> (r matches Err(x) && x@ == e)
                && final(self)@ == old(self)@,
    {
        if is_builtin_name(mode.name.as_str()) {
            return Err(ConfigError::CannotReplaceBuiltin(mode.name));
        }
        match position_named(&self.custom_modes, mode.name.as_str()) {
            Some(i) => {
                proof {
                    let ms = old(self)@.custom_modes;
                    assert forall|j: int| 0 <= j < i implies !eq_ignore_case(
                        #[trigger] ms[j].name,
                        mode.name@,
                    ) by {
                        assert(ms[j] == old(self).custom_modes@[j]@);
                    }
                    assert(ms[i as int] == old(self).custom_modes@[i as int]@);
                    lemma_first_named_index(ms, mode.name@, i as int);
                }
                let ghost mv = mode@;
                self.custom_modes.set(i, mode);
                assert(mode_views(self.custom_modes@) =~= old(self)@.custom_modes.update(
                    i as int,
                    mv,
                ));
                Ok(())
            },
            None => {
                if self.custom_modes.len() >= MAX_CUSTOM_MODES {
                    return Err(ConfigError::CustomModeLimit);
                }
                let ghost mv = mode@;
                let ghost before = old(self)@.custom_modes;
                self.custom_modes.push(mode);
                sort_modes_by_name(&mut self.custom_modes);
                assert(mode_views(old(self).custom_modes@.push(mode)) =~= before.push(mv));
                Ok(())
            },
        }
    }

    /// Removes every custom mode named `name` (ignoring ASCII case); tells
    /// whether any was removed.
    pub fn remove_custom_mode(&mut self, name: &str) -> (r: bool)
        ensures
            final(self)@ == (ConfigView {
                custom_modes: without_named(old(self)@.custom_modes, name@),
                ..old(self)@
            }),
            r == (without_named(old(self)@.custom_modes, name@).len() != old(
                self,
            )@.custom_modes.len()),
    {
        let before = self.custom_modes.len();
        let mut kept: Vec<ModePreset> = Vec::new();
        let mut old_modes: Vec<ModePreset> = Vec::new();
        std::mem::swap(&mut old_modes, &mut self.custom_modes);
        let ghost ms = mode_views(old_modes@);
        let n = old_modes.len();
        let mut i: usize = 0;
        proof {
            lemma_mode_views(old_modes@);
            assert(ms.skip(0) =~= ms);
            assert(without_named(ms.take(0), name@) =~= Seq::<ModeView>::empty());
            assert(mode_views(kept@) =~= Seq::<ModeView>::empty());
        }
        while old_modes.len() > 0
            invariant
                n == ms.len(),
                i + old_modes@.len() == n,
                mode_views(old_modes@) == ms.skip(i as int),
                mode_views(kept@) == without_named(ms.take(i as int), name@),
            decreases old_modes@.len(),
        {
            let ghost pre = old_modes@;
            let m = old_modes.remove(0);
            proof {
                lemma_mode_views(pre);
                lemma_mode_views(old_modes@);
                assert(old_modes@ =~= pre.subrange(1, pre.len() as int));
                assert(m@ == ms.skip(i as int)[0]);
                assert forall|k: int| 0 <= k < old_modes@.len() implies #[trigger] mode_views(
                    old_modes@,
                )[k] == ms.skip(i + 1)[k] by {
                    assert(mode_views(old_modes@)[k] == old_modes@[k]@);
                    assert(old_modes@[k] == pre[k + 1]);
                    assert(mode_views(pre)[k + 1] == pre[k + 1]@);
                    assert(ms.skip(i as int)[k + 1] == ms.skip(i + 1)[k]);
                }
                assert(ms[i as int] == m@);
                assert(ms.take(i + 1).drop_last() =~= ms.take(i as int));
                assert(mode_views(old_modes@) =~= ms.skip(i + 1));
            }
            if !str_eq_ignore_ascii_case(m.name.as_str(), name) {
                let ghost k = kept@;
                kept.push(m);
                proof {
                    lemma_mode_views(k);
                    lemma_mode_views(kept@);
                    assert(mode_views(kept@) =~= mode_views(k).push(m@));
                }
            }
            i = i + 1;
        }
        assert(ms.take(n as int) =~= ms);
        self.custom_modes = kept;
        before != self.custom_modes.len()
    }

    /// Sets the active mode to the first mode (built-ins first) whose settings
    /// are the current noise and immersive settings, or to none.
    pub fn sync_active_mode_to_current_audio(&mut self)
        ensures
            final(self)@ == (ConfigView {
                active_mode: first_with_audio(
                    all_mode_views(old(self)@),
                    old(self)@.noise,
                    old(self)@.immersive,
                ),
                ..old(self)@
            }),
    {
        let modes = self.all_modes();
        let ghost ms = mode_views(modes@);
        proof {
            lemma_mode_views(modes@);
            assert(ms.skip(0) =~= ms);
        }
        let n = modes.len();
        let mut i: usize = 0;
        while i < n && !(modes[i].noise == self.noise && modes[i].immersive == self.immersive)
            invariant
                n == ms.len(),
                i <= n,
                ms == mode_views(modes@),
                forall|k: int| 0 <= k < ms.len() ==> #[trigger] ms[k] == modes@[k]@,
                first_with_audio(ms, self.noise, self.immersive) == first_with_audio(
                    ms.skip(i as int),
                    self.noise,
                    self.immersive,
                ),
            decreases n - i,
        {
            proof {
                assert(ms.skip(i as int)[0] == ms[i as int]);
                assert(ms.skip(i as int).drop_first() =~= ms.skip(i + 1));
            }
            i = i + 1;
        }
        if i < n {
            assert(ms.skip(i as int)[0] == ms[i as int]);
            self.active_mode = Some(modes[i].name.clone());
        } else {
            assert(ms.skip(i as int).len() == 0);
            self.active_mode = None;
        }
    }

    /// Checks the configuration; the error is the first failing check.
    pub fn validate(&self) -> (r: Result<(), ConfigError>)
        ensures
            r is Ok <==> config_valid(self@),
            r matches Err(e) ==> Some(e@) == config_error(self@),
    {
        if NoiseControl::new(self.noise.enabled, self.noise.level).is_err() {
            return Err(ConfigError::InvalidNoise);
        }
        if crate::domain::Eq::new(self.eq.bass, self.eq.mid, self.eq.treble).is_err() {
            return Err(ConfigError::InvalidEq);
        }
        if self.custom_modes.len() > MAX_CUSTOM_MODES {
            return Err(ConfigError::TooManyCustomModes);
        }
        let ghost ms = self@.custom_modes;
        let n = self.custom_modes.len();
        for i in 0..n
            invariant
                n == ms.len(),
                ms == self@.custom_modes,
                noise_valid(self.noise),
                eq_valid(self.eq),
                n <= 7,
                first_custom_error(ms, 0) == first_custom_error(ms, i as int),
        {
            let m = &self.custom_modes[i];
            assert(ms[i as int] == m@);
            let trimmed = match validate_mode_name(m.name.as_str()) {
                Ok(t) => t,
                Err(_) => return Err(ConfigError::InvalidCustomMode),
            };
            if trimmed != m.name {
                return Err(ConfigError::CustomModeWhitespace(m.name.clone()));
            }
            if is_builtin_name(m.name.as_str()) {
                return Err(ConfigError::CustomModeConflictsBuiltin(m.name.clone()));
            }
            let mut j: usize = 0;
            while j < i
                invariant
                    i < n,
                    n == ms.len(),
                    ms == self@.custom_modes,
                    j <= i,
                    m@ == ms[i as int],
                    noise_valid(self.noise),
                    eq_valid(self.eq),
                    n <= 7,
                    first_custom_error(ms, 0) == first_custom_error(ms, i as int),
                    trim(m@.name).len() > 0,
                    trim(m@.name) == m@.name,
                    !has_named(builtin_mode_views(), m@.name),
                    forall|k: int| 0 <= k < j ==> !eq_ignore_case(#[trigger] ms[k].name, m@.name),
                decreases i - j,
            {
                assert(ms[j as int] == self.custom_modes@[j as int]@);
                if str_eq_ignore_ascii_case(self.custom_modes[j].name.as_str(), m.name.as_str()) {
                    assert(ms.take(i as int)[j as int] == ms[j as int]);
                    assert(eq_ignore_case(ms.take(i as int)[j as int].name, m@.name));
                    assert(has_named(ms.take(i as int), m@.name));
                    assert(custom_mode_error(ms, i as int) == Some(
                        ConfigErrorView::DuplicateCustomMode(m@.name),
                    ));
                    return Err(ConfigError::DuplicateCustomMode(m.name.clone()));
                }
                j = j + 1;
            }
            assert(!has_named(ms.take(i as int), m@.name)) by {
                if has_named(ms.take(i as int), m@.name) {
                    let k = choose|k: int|
                        0 <= k < i && eq_ignore_case(#[trigger] ms.take(i as int)[k].name, m@.name);
                    assert(ms.take(i as int)[k] == ms[k]);
                }
            }
            if m.noise.level > 10 {
                return Err(ConfigError::InvalidModeNoise(m.name.clone()));
            }
        }
        match &self.active_mode {
            None => Ok(()),
            Some(active) => {
                if validate_mode_name(active.as_str()).is_err() {
                    return Err(ConfigError::InvalidActiveMode);
                }
                if self.find_mode(active.as_str()).is_none() {
                    return Err(ConfigError::ActiveModeMissing(active.clone()));
                }
                Ok(())
            },
        }
    }
}

/// What adding or replacing custom mode `m` makes of configuration `c`.
pub open spec fn upsert_outcome(c: ConfigView, m: ModeView) -> Result<ConfigView, ConfigErrorView> {
    if has_named(builtin_mode_views(), m.name) {
        Err(ConfigErrorView::CannotReplaceBuiltin(m.name))
    } else if has_named(c.custom_modes, m.name) {
        Ok(
            ConfigView {
                custom_modes: c.custom_modes.update(first_named_index(c.custom_modes, m.name), m),
                ..c
            },
        )
    } else if c.custom_modes.len() >= 7 {
        Err(ConfigErrorView::CustomModeLimit)
    } else {
        Ok(ConfigView { custom_modes: sort_by_name(c.custom_modes.push(m)), ..c })
    }
}

pub open spec fn opt_mode_view(m: Option<ModePreset>) -> Option<ModeView> {
    match m {
        Some(m) => Some(m@),
        None => None,
    }
}

/// Index of the first mode named `name`, ignoring ASCII case.
pub open spec fn first_named_index(ms: Seq<ModeView>, name: Seq<char>) -> int
    decreases ms.len(),
{
    if ms.len() == 0 || eq_ignore_case(ms[0].name, name) {
        0
    } else {
        1 + first_named_index(ms.drop_first(), name)
    }
}

pub proof fn lemma_first_named_index(ms: Seq<ModeView>, name: Seq<char>, i: int)
    requires
        0 <= i < ms.len(),
        forall|j: int| 0 <= j < i ==> !eq_ignore_case(#[trigger] ms[j].name, name),
        eq_ignore_case(ms[i].name, name),
    ensures
        first_named_index(ms, name) == i,
    decreases i,
{
    if i > 0 {
        let d = ms.drop_first();
        assert forall|j: int| 0 <= j < i - 1 implies !eq_ignore_case(#[trigger] d[j].name, name) by {
            assert(d[j] == ms[j + 1]);
        }
        assert(d[i - 1] == ms[i]);
        lemma_first_named_index(d, name, i - 1);
    }
}

/// Sorts modes by name with a stable insertion sort.
fn sort_modes_by_name(v: &mut Vec<ModePreset>)
    ensures
        mode_views(final(v)@) == sort_by_name(mode_views(old(v)@)),
{
    let mut rest: Vec<ModePreset> = Vec::new();
    std::mem::swap(&mut rest, v);
    let ghost all = mode_views(rest@);
    let n = rest.len();
    let mut i: usize = 0;
    proof {
        lemma_mode_views(rest@);
        assert(all.skip(0) =~= all);
        assert(mode_views(v@) =~= Seq::<ModeView>::empty());
        assert(all.take(0) =~= Seq::<ModeView>::empty());
    }
    while rest.len() > 0
        invariant
            n == all.len(),
            i + rest@.len() == n,
            mode_views(rest@) == all.skip(i as int),
            mode_views(v@) == sort_by_name(all.take(i as int)),
        decreases rest@.len(),
    {
        let ghost pre = rest@;
        let m = rest.remove(0);
        proof {
            lemma_mode_views(pre);
            lemma_mode_views(rest@);
            assert(rest@ =~= pre.subrange(1, pre.len() as int));
            assert(m@ == all.skip(i as int)[0]);
            assert forall|k: int| 0 <= k < rest@.len() implies #[trigger] mode_views(rest@)[k]
                == all.skip(i + 1)[k] by {
                assert(mode_views(rest@)[k] == rest@[k]@);
                assert(rest@[k] == pre[k + 1]);
                assert(mode_views(pre)[k + 1] == pre[k + 1]@);
                assert(all.skip(i as int)[k + 1] == all.skip(i + 1)[k]);
            }
            assert(mode_views(rest@) =~= all.skip(i + 1));
            let t = all.take(i + 1);
            assert(t.drop_last() =~= all.take(i as int));
            assert(t.last() == m@);
        }
        insert_mode_sorted(v, m);
        i = i + 1;
    }
    assert(all.take(n as int) =~= all);
}

/// Where the first mode named `name` stands, when there is one.
pub proof fn lemma_first_named_index_props(ms: Seq<ModeView>, name: Seq<char>)
    requires
        has_named(ms, name),
    ensures
        0 <= first_named_index(ms, name) < ms.len(),
        eq_ignore_case(ms[first_named_index(ms, name)].name, name),
        forall|j: int|
            0 <= j < first_named_index(ms, name) ==> !eq_ignore_case(#[trigger] ms[j].name, name),
    decreases ms.len(),
{
    if !eq_ignore_case(ms[0].name, name) {
        let d = ms.drop_first();
        let k = choose|k: int| 0 <= k < ms.len() && eq_ignore_case(#[trigger] ms[k].name, name);
        assert(d[k - 1] == ms[k]);
        assert(has_named(d, name));
        lemma_first_named_index_props(d, name);
        assert forall|j: int| 0 <= j < first_named_index(ms, name) implies !eq_ignore_case(
            #[trigger] ms[j].name,
            name,
        ) by {
            if j > 0 {
                assert(ms[j] == d[j - 1]);
            }
        }
        assert(ms[first_named_index(ms, name)] == d[first_named_index(d, name)]);
    }
}

/// Inserting keeps every mode and adds the new one.
pub proof fn lemma_insert_sorted_contents(ms: Seq<ModeView>, m: ModeView)
    ensures
        insert_sorted(ms, m).len() == ms.len() + 1,
        forall|e: ModeView| #[trigger] insert_sorted(ms, m).contains(e) <==> (e == m || ms.contains(e)),
    decreases ms.len(),
{
    let r = insert_sorted(ms, m);
    if ms.len() == 0 {
        assert forall|e: ModeView| #[trigger] r.contains(e) <==> (e == m || ms.contains(e)) by {
            if r.contains(e) {
                let k = choose|k: int| 0 <= k < r.len() && r[k] == e;
                assert(k == 0);
            }
            if e == m {
                assert(r[0] == m);
            }
        }
    } else if lex_less(m.name, ms[0].name) {
        assert forall|e: ModeView| #[trigger] r.contains(e) <==> (e == m || ms.contains(e)) by {
            if r.contains(e) {
                let k = choose|k: int| 0 <= k < r.len() && r[k] == e;
                if k > 0 {
                    assert(ms[k - 1] == e);
                }
            }
            if e == m {
                assert(r[0] == m);
            }
            if ms.contains(e) {
                let k = choose|k: int| 0 <= k < ms.len() && ms[k] == e;
                assert(r[k + 1] == e);
            }
        }
    } else {
        let d = ms.drop_first();
        lemma_insert_sorted_contents(d, m);
        let rd = insert_sorted(d, m);
        assert forall|e: ModeView| #[trigger] r.contains(e) <==> (e == m || ms.contains(e)) by {
            if r.contains(e) {
                let k = choose|k: int| 0 <= k < r.len() && r[k] == e;
                if k > 0 {
                    assert(rd[k - 1] == e);
                    assert(rd.contains(e));
                    if e != m {
                        let j = choose|j: int| 0 <= j < d.len() && d[j] == e;
                        assert(ms[j + 1] == e);
                    }
                } else {
                    assert(ms[0] == e);
                }
            }
            if e == m {
                assert(rd.contains(m));
                let j = choose|j: int| 0 <= j < rd.len() && rd[j] == m;
                assert(r[j + 1] == m);
            }
            if ms.contains(e) {
                let k = choose|k: int| 0 <= k < ms.len() && ms[k] == e;
                if k == 0 {
                    assert(r[0] == e);
                } else {
                    assert(d[k - 1] == e);
                    assert(rd.contains(e));
                    let j = choose|j: int| 0 <= j < rd.len() && rd[j] == e;
                    assert(r[j + 1] == e);
                }
            }
        }
    }
}

/// Sorting keeps the modes: same length, same members.
pub proof fn lemma_sort_contents(ms: Seq<ModeView>)
    ensures
        sort_by_name(ms).len() == ms.len(),
        forall|e: ModeView| #[trigger] sort_by_name(ms).contains(e) <==> ms.contains(e),
    decreases ms.len(),
{
    if ms.len() > 0 {
        let d = ms.drop_last();
        lemma_sort_contents(d);
        lemma_insert_sorted_contents(sort_by_name(d), ms.last());
        assert forall|e: ModeView| #[trigger] sort_by_name(ms).contains(e) <==> ms.contains(e) by {
            if ms.contains(e) && e != ms.last() {
                let k = choose|k: int| 0 <= k < ms.len() && ms[k] == e;
                assert(d[k] == e);
                assert(d.contains(e));
            }
            if d.contains(e) {
                let k = choose|k: int| 0 <= k < d.len() && d[k] == e;
                assert(ms[k] == e);
            }
            if e == ms.last() {
                assert(ms[ms.len() - 1] == e);
            }
        }
    }
}

/// Lookup skips a prefix in which no name matches.
pub proof fn lemma_find_named_append(a: Seq<ModeView>, b: Seq<ModeView>, name: Seq<char>)
    requires
        !has_named(a, name),
    ensures
        find_named(a + b, name) == find_named(b, name),
{
    let ab = a + b;
    assert forall|j: int| 0 <= j < a.len() implies !eq_ignore_case(#[trigger] ab[j].name, name) by {
        assert(ab[j] == a[j]);
        if eq_ignore_case(ab[j].name, name) {
            assert(eq_ignore_case(a[j].name, name));
        }
    }
    lemma_find_named_skip(ab, name, a.len() as int);
    assert(ab.skip(a.len() as int) =~= b);
}

/// A custom mode that was added or replaced is what looking its name up
/// finds afterwards.
pub proof fn lemma_upsert_then_find(c: ConfigView, m: ModeView)
    requires
        upsert_outcome(c, m) is Ok,
    ensures
        find_named(all_mode_views(upsert_outcome(c, m)->Ok_0), m.name) == Some(m),
{
    let c2 = upsert_outcome(c, m)->Ok_0;
    assert(eq_ignore_case(m.name, m.name));
    lemma_find_named_append(builtin_mode_views(), c2.custom_modes, m.name);
    if has_named(c.custom_modes, m.name) {
        let cs = c.custom_modes;
        let idx = first_named_index(cs, m.name);
        lemma_first_named_index_props(cs, m.name);
        let u = cs.update(idx, m);
        assert forall|j: int| 0 <= j < idx implies !eq_ignore_case(#[trigger] u[j].name, m.name) by {
            assert(u[j] == cs[j]);
        }
        lemma_find_named_at(u, m.name, idx);
    } else {
        let cs = c.custom_modes.push(m);
        let sorted = sort_by_name(cs);
        lemma_sort_contents(cs);
        assert(cs[cs.len() - 1] == m);
        assert(sorted.contains(m));
        let k = choose|k: int| 0 <= k < sorted.len() && sorted[k] == m;
        assert(has_named(sorted, m.name)) by {
            assert(eq_ignore_case(sorted[k].name, m.name));
        }
        lemma_find_named_some(sorted, m.name);
        let found = find_named(sorted, m.name)->Some_0;
        assert(cs.contains(found));
        if found != m {
            let j = choose|j: int| 0 <= j < cs.len() && cs[j] == found;
            assert(j < c.custom_modes.len());
            assert(c.custom_modes[j] == found);
            assert(has_named(c.custom_modes, m.name));
        }
    }
}

/// Adding never takes the custom modes past the headphones' limit.
pub proof fn lemma_upsert_respects_limit(c: ConfigView, m: ModeView)
    requires
        c.custom_modes.len() <= 7,
        upsert_outcome(c, m) is Ok,
    ensures
        (upsert_outcome(c, m)->Ok_0).custom_modes.len() <= 7,
{
    if !has_named(c.custom_modes, m.name) {
        lemma_sort_contents(c.custom_modes.push(m));
    } else if !has_named(builtin_mode_views(), m.name) {
        lemma_first_named_index_props(c.custom_modes, m.name);
    }
}

/// After removal no custom mode carries the name.
pub proof fn lemma_removed_name_absent(ms: Seq<ModeView>, name: Seq<char>)
    ensures
        !has_named(without_named(ms, name), name),
    decreases ms.len(),
{
    if ms.len() > 0 {
        let d = ms.drop_last();
        lemma_removed_name_absent(d, name);
        let w = without_named(d, name);
        if !eq_ignore_case(ms.last().name, name) {
            let r = w.push(ms.last());
            if has_named(r, name) {
                let k = choose|k: int| 0 <= k < r.len() && eq_ignore_case(#[trigger] r[k].name, name);
                if k < w.len() {
                    assert(r[k] == w[k]);
                }
            }
        }
    }
}

/// The active mode that follows the audio settings names a mode with exactly
/// those settings.
pub proof fn lemma_active_mode_matches(ms: Seq<ModeView>, noise: NoiseControl, immersive: ImmersiveAudio)
    requires
        first_with_audio(ms, noise, immersive) is Some,
    ensures
        exists|k: int|
            0 <= k < ms.len() && #[trigger] ms[k].name == first_with_audio(ms, noise, immersive)->Some_0
                && ms[k].noise == noise && ms[k].immersive == immersive,
    decreases ms.len(),
{
    if !(ms[0].noise == noise && ms[0].immersive == immersive) {
        let d = ms.drop_first();
        lemma_active_mode_matches(d, noise, immersive);
        let k = choose|k: int|
            0 <= k < d.len() && #[trigger] d[k].name == first_with_audio(d, noise, immersive)->Some_0
                && d[k].noise == noise && d[k].immersive == immersive;
        assert(ms[k + 1] == d[k]);
    } else {
        assert(ms[0].name == first_with_audio(ms, noise, immersive)->Some_0);
    }
}

/// The configuration used when none is saved passes validation.
pub proof fn lemma_default_config_valid()
    ensures
        config_valid(default_config_view()),
{
    let c = default_config_view();
    let all = all_mode_views(c);
    assert(all[0] == quiet_view());
    assert(eq_ignore_case(all[0].name, "Quiet"@));
    lemma_find_named_at(all, "Quiet"@, 0);
    reveal_strlit("Quiet");
    assert(trim("Quiet"@).len() > 0) by {
        let q = "Quiet"@;
        assert(!crate::text::is_whitespace(q[0]));
        assert(!crate::text::is_whitespace(q.last()));
        assert(crate::text::lead_ws(q) == 0);
        assert(crate::text::trail_ws(q) == 0);
        assert(q.skip(0) =~= q);
    }
}

} // verus!

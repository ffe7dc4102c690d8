//! The headphone settings that the tool manages: devices, noise control,
//! immersive audio, EQ and listening-mode presets.
use vstd::prelude::*;
use crate::text::{decimal, push_decimal, trim, trim_str};

verus! {

/// The Bose models that the registry recognizes.
#[derive(Debug, Clone, Copy, PartialEq, Eq, Structural)]
pub enum ModelId {
    QcUltraHeadphones2,
    QcUltraHeadphones,
    QuietComfortHeadphones,
    QuietComfort45,
    NoiseCancellingHeadphones700,
    QuietComfortUltraEarbuds,
    QuietComfortEarbuds2,
}

/// The identifier under which a model is shown and stored.
pub open spec fn model_id_text(id: ModelId) -> Seq<char> {
    match id {
        ModelId::QcUltraHeadphones2 => "qc-ultra-headphones-2"@,
        ModelId::QcUltraHeadphones => "qc-ultra-headphones"@,
        ModelId::QuietComfortHeadphones => "quietcomfort-headphones"@,
        ModelId::QuietComfort45 => "quietcomfort-45"@,
        ModelId::NoiseCancellingHeadphones700 => "noise-cancelling-headphones-700"@,
        ModelId::QuietComfortUltraEarbuds => "quietcomfort-ultra-earbuds"@,
        ModelId::QuietComfortEarbuds2 => "quietcomfort-earbuds-2"@,
    }
}

impl ModelId {
    pub fn as_str(&self) -> (r: &'static str)
        ensures
            r@ == model_id_text(*self),
    {
        match self {
            ModelId::QcUltraHeadphones2 => "qc-ultra-headphones-2",
            ModelId::QcUltraHeadphones => "qc-ultra-headphones",
            ModelId::QuietComfortHeadphones => "quietcomfort-headphones",
            ModelId::QuietComfort45 => "quietcomfort-45",
            ModelId::NoiseCancellingHeadphones700 => "noise-cancelling-headphones-700",
            ModelId::QuietComfortUltraEarbuds => "quietcomfort-ultra-earbuds",
            ModelId::QuietComfortEarbuds2 => "quietcomfort-earbuds-2",
        }
    }

    pub fn to_string(&self) -> (r: String)
        ensures
            r@ == model_id_text(*self),
    {
        String::from_str(self.as_str())
    }
}

/// A Bluetooth device chosen by the user.
#[derive(Debug)]
pub struct DeviceRef {
    pub address: String,
    pub name: Option<String>,
    pub model: Option<ModelId>,
}

pub struct DeviceView {
    pub address: Seq<char>,
    pub name: Option<Seq<char>>,
    pub model: Option<ModelId>,
}

pub open spec fn opt_text(o: Option<String>) -> Option<Seq<char>> {
    match o {
        Some(s) => Some(s@),
        None => None,
    }
}

impl View for DeviceRef {
    type V = DeviceView;

    open spec fn view(&self) -> DeviceView {
        DeviceView { address: self.address@, name: opt_text(self.name), model: self.model }
    }
}

pub fn clone_opt_string(o: &Option<String>) -> (r: Option<String>)
    ensures
        r == *o,
{
    match o {
        Some(s) => Some(s.clone()),
        None => None,
    }
}

impl Clone for DeviceRef {
    fn clone(&self) -> (r: Self)
        ensures
            r == *self,
    {
        DeviceRef {
            address: self.address.clone(),
            name: clone_opt_string(&self.name),
            model: self.model,
        }
    }
}

/// `name (address)`, with `<unknown>` for a device without a name.
pub open spec fn device_display(d: DeviceView) -> Seq<char> {
    let name = match d.name {
        Some(n) => n,
        None => "<unknown>"@,
    };
    name + " ("@ + d.address + ")"@
}

impl DeviceRef {
    pub fn display(&self) -> (r: String)
        ensures
            r@ == device_display(self@),
    {
        let mut s = String::new();
        match &self.name {
            Some(n) => s.append(n.as_str()),
            None => s.append("<unknown>"),
        }
        s.append(" (");
        s.append(self.address.as_str());
        s.append(")");
        proof {
            let name = match self@.name {
                Some(n) => n,
                None => "<unknown>"@,
            };
            assert(s@ =~= name + " ("@ + self@.address + ")"@);
        }
        s
    }
}

/// Errors of the domain constructors.
#[derive(Debug, Clone, Copy, PartialEq, Eq, Structural)]
pub enum DomainError {
    NoiseLevelOutOfRange,
    EqOutOfRange,
    EmptyModeName,
}

pub open spec fn domain_error_text(e: DomainError) -> Seq<char> {
    match e {
        DomainError::NoiseLevelOutOfRange => "noise level must be 0..10"@,
        DomainError::EqOutOfRange => "eq values must be -10..10"@,
        DomainError::EmptyModeName => "mode name cannot be empty"@,
    }
}

impl DomainError {
    pub fn message(&self) -> (r: String)
        ensures
            r@ == domain_error_text(*self),
    {
        match self {
            DomainError::NoiseLevelOutOfRange => String::from_str("noise level must be 0..10"),
            DomainError::EqOutOfRange => String::from_str("eq values must be -10..10"),
            DomainError::EmptyModeName => String::from_str("mode name cannot be empty"),
        }
    }
}

/// Noise control: on/off and a level where 0 admits the most outside sound
/// and 10 blocks the most.
#[derive(Debug, Clone, Copy, PartialEq, Eq, Structural)]
pub struct NoiseControl {
    pub enabled: bool,
    pub level: u8,
}

pub open spec fn noise_valid(n: NoiseControl) -> bool {
    n.level <= 10
}

impl NoiseControl {
    pub fn new(enabled: bool, level: u8) -> (r: Result<NoiseControl, DomainError>)
        ensures
            r is Ok <==> level <= 10,
            r matches Ok(n) ==> n == (NoiseControl { enabled, level }),
            r matches Err(e) ==> e == DomainError::NoiseLevelOutOfRange,
    {
        if level > 10 {
            return Err(DomainError::NoiseLevelOutOfRange);
        }
        Ok(NoiseControl { enabled, level })
    }
}

/// Immersive (spatial) audio.
#[derive(Debug, Clone, Copy, PartialEq, Eq, Structural)]
pub enum ImmersiveAudio {
    Off,
    Still,
    Motion,
}

pub open spec fn immersive_text(v: ImmersiveAudio) -> Seq<char> {
    match v {
        ImmersiveAudio::Off => "Off"@,
        ImmersiveAudio::Still => "Still"@,
        ImmersiveAudio::Motion => "Motion"@,
    }
}

impl ImmersiveAudio {
    pub fn as_str(&self) -> (r: &'static str)
        ensures
            r@ == immersive_text(*self),
    {
        match self {
            ImmersiveAudio::Off => "Off",
            ImmersiveAudio::Still => "Still",
            ImmersiveAudio::Motion => "Motion",
        }
    }

    pub fn to_string(&self) -> (r: String)
        ensures
            r@ == immersive_text(*self),
    {
        String::from_str(self.as_str())
    }
}

/// Equalizer bands, each in `-10..=10`.
#[derive(Debug, Clone, Copy, PartialEq, Eq, Structural)]
pub struct Eq {
    pub bass: i8,
    pub mid: i8,
    pub treble: i8,
}

pub open spec fn band_valid(v: i8) -> bool {
    -10 <= v <= 10
}

pub open spec fn eq_valid(e: Eq) -> bool {
    band_valid(e.bass) && band_valid(e.mid) && band_valid(e.treble)
}

impl Eq {
    pub fn new(bass: i8, mid: i8, treble: i8) -> (r: Result<Eq, DomainError>)
        ensures
            r is Ok <==> band_valid(bass) && band_valid(mid) && band_valid(treble),
            r matches Ok(e) ==> e == (Eq { bass, mid, treble }),
            r matches Err(e) ==> e == DomainError::EqOutOfRange,
    {
        if bass < -10 || bass > 10 || mid < -10 || mid > 10 || treble < -10 || treble > 10 {
            return Err(DomainError::EqOutOfRange);
        }
        Ok(Eq { bass, mid, treble })
    }
}

/// A listening mode: a name with the noise and immersive settings it applies.
#[derive(Debug)]
pub struct ModePreset {
    pub name: String,
    pub noise: NoiseControl,
    pub immersive: ImmersiveAudio,
}

pub struct ModeView {
    pub name: Seq<char>,
    pub noise: NoiseControl,
    pub immersive: ImmersiveAudio,
}

impl View for ModePreset {
    type V = ModeView;

    open spec fn view(&self) -> ModeView {
        ModeView { name: self.name@, noise: self.noise, immersive: self.immersive }
    }
}

impl Clone for ModePreset {
    fn clone(&self) -> (r: Self)
        ensures
            r == *self,
    {
        ModePreset { name: self.name.clone(), noise: self.noise, immersive: self.immersive }
    }
}

pub open spec fn bool_text(b: bool) -> Seq<char> {
    if b {
        "true"@
    } else {
        "false"@
    }
}

/// `name: noise enabled=.. level=.. immersive=..`, the line that lists a mode.
pub open spec fn mode_display(m: ModeView) -> Seq<char> {
    m.name + ": noise enabled="@ + bool_text(m.noise.enabled) + " level="@ + decimal(
        m.noise.level as nat,
    ) + " immersive="@ + immersive_text(m.immersive)
}

impl ModePreset {
    pub fn new(name: &str, noise: NoiseControl, immersive: ImmersiveAudio) -> (r: Result<
        ModePreset,
        DomainError,
    >)
        ensures
            r is Ok <==> trim(name@).len() > 0,
            r matches Ok(m) ==> m@ == (ModeView { name: trim(name@), noise, immersive }),
            r matches Err(e) ==> e == DomainError::EmptyModeName,
    {
        let name = validate_mode_name(name)?;
        Ok(ModePreset { name, noise, immersive })
    }

    pub fn to_string(&self) -> (r: String)
        ensures
            r@ == mode_display(self@),
    {
        let mut s = self.name.clone();
        s.append(": noise enabled=");
        if self.noise.enabled {
            s.append("true");
        } else {
            s.append("false");
        }
        s.append(" level=");
        push_decimal(&mut s, self.noise.level as u64);
        s.append(" immersive=");
        s.append(self.immersive.as_str());
        proof {
            let m = self@;
            assert(s@ =~= mode_display(m));
        }
        s
    }
}

pub open spec fn quiet_view() -> ModeView {
    ModeView {
        name: "Quiet"@,
        noise: NoiseControl { enabled: true, level: 10 },
        immersive: ImmersiveAudio::Off,
    }
}

/// The presets that the headphones ship with, in menu order.
pub open spec fn builtin_mode_views() -> Seq<ModeView> {
    seq![
        quiet_view(),
        ModeView {
            name: "Aware"@,
            noise: NoiseControl { enabled: true, level: 0 },
            immersive: ImmersiveAudio::Off,
        },
        ModeView {
            name: "Immersion"@,
            noise: NoiseControl { enabled: true, level: 10 },
            immersive: ImmersiveAudio::Motion,
        },
        ModeView {
            name: "Cinema"@,
            noise: NoiseControl { enabled: true, level: 10 },
            immersive: ImmersiveAudio::Still,
        },
    ]
}

pub open spec fn mode_views(s: Seq<ModePreset>) -> Seq<ModeView> {
    s.map_values(|m: ModePreset| m@)
}

fn preset(name: &str, enabled: bool, level: u8, immersive: ImmersiveAudio) -> (r: ModePreset)
    ensures
        r@ == (ModeView { name: name@, noise: NoiseControl { enabled, level }, immersive }),
{
    ModePreset { name: String::from_str(name), noise: NoiseControl { enabled, level }, immersive }
}

pub fn builtin_modes() -> (r: Vec<ModePreset>)
    ensures
        mode_views(r@) == builtin_mode_views(),
{
    let mut v = Vec::new();
    v.push(preset("Quiet", true, 10, ImmersiveAudio::Off));
    v.push(preset("Aware", true, 0, ImmersiveAudio::Off));
    v.push(preset("Immersion", true, 10, ImmersiveAudio::Motion));
    v.push(preset("Cinema", true, 10, ImmersiveAudio::Still));
    assert(mode_views(v@) =~= builtin_mode_views());
    v
}

/// A mode name with surrounding whitespace removed; blank names are refused.
pub fn validate_mode_name(name: &str) -> (r: Result<String, DomainError>)
    ensures
        r is Ok <==> trim(name@).len() > 0,
        r matches Ok(s) ==> s@ == trim(name@),
        r matches Err(e) ==> e == DomainError::EmptyModeName,
{
    let t = trim_str(name);
    if t.as_str().is_empty() {
        return Err(DomainError::EmptyModeName);
    }
    Ok(t)
}

} // verus!

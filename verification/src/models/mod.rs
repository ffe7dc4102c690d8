//! The model registry: which Bose models are recognized, which of them accept
//! configuration writes, and how a selected device is resolved to a model.
use vstd::prelude::*;
use crate::bmap::{BmapRequest, Frame, FrameView, RequestView, request_views};
use crate::config::{ConfigFile, ConfigView};
use crate::domain::{
    DeviceRef, DeviceView, ModelId, ModePreset, ModeView, builtin_mode_views, builtin_modes,
    device_display, mode_views, noise_valid,
};
use crate::text::{ascii_lower, char_to_ascii_lowercase, is_ascii_alnum, push_char};

pub mod qc_ultra_2;

verus! {

/// What the CLI can do with a model.
#[derive(Debug, Clone, Copy, PartialEq, Eq, Structural)]
pub struct Capabilities {
    pub config_writes: bool,
    pub battery: bool,
}

/// Errors of model resolution and of the model-specific request builders.
#[derive(Debug)]
pub enum ModelError {
    NoSelectedDevice,
    UnknownModel(String),
    UnsupportedConfig(String),
    SyncUnsupported(String),
    BatteryUnsupported(String),
    NoChannel(String),
    CustomModeSync(String),
    UnexpectedBatteryResponse { fblock: u8, func: u8 },
    BatteryMissingPayload,
}

pub enum ModelErrorView {
    NoSelectedDevice,
    UnknownModel(Seq<char>),
    UnsupportedConfig(Seq<char>),
    SyncUnsupported(Seq<char>),
    BatteryUnsupported(Seq<char>),
    NoChannel(Seq<char>),
    CustomModeSync(Seq<char>),
    UnexpectedBatteryResponse { fblock: u8, func: u8 },
    BatteryMissingPayload,
}

impl View for ModelError {
    type V = ModelErrorView;

    open spec fn view(&self) -> ModelErrorView {
        match self {
            ModelError::NoSelectedDevice => ModelErrorView::NoSelectedDevice,
            ModelError::UnknownModel(s) => ModelErrorView::UnknownModel(s@),
            ModelError::UnsupportedConfig(s) => ModelErrorView::UnsupportedConfig(s@),
            ModelError::SyncUnsupported(s) => ModelErrorView::SyncUnsupported(s@),
            ModelError::BatteryUnsupported(s) => ModelErrorView::BatteryUnsupported(s@),
            ModelError::NoChannel(s) => ModelErrorView::NoChannel(s@),
            ModelError::CustomModeSync(s) => ModelErrorView::CustomModeSync(s@),
            ModelError::UnexpectedBatteryResponse {
                fblock,
                func,
            } => ModelErrorView::UnexpectedBatteryResponse { fblock: *fblock, func: *func },
            ModelError::BatteryMissingPayload => ModelErrorView::BatteryMissingPayload,
        }
    }
}

pub open spec fn model_error_text(e: ModelErrorView) -> Seq<char> {
    match e {
        ModelErrorView::NoSelectedDevice => "no selected device"@,
        ModelErrorView::UnknownModel(d) => "unknown Bose model for selected device "@ + d
            + "; refusing to send configuration writes"@,
        ModelErrorView::UnsupportedConfig(n) => "selected device model '"@ + n
            + "' does not support mode/noise/immersive/EQ configuration in this CLI yet"@,
        ModelErrorView::SyncUnsupported(n) => "model '"@ + n
            + "' is recognized but configuration writes are not supported yet"@,
        ModelErrorView::BatteryUnsupported(n) => "model '"@ + n
            + "' is recognized but battery readback is not supported yet"@,
        ModelErrorView::NoChannel(n) => "model '"@ + n
            + "' does not have a known RFCOMM channel in this CLI"@,
        ModelErrorView::CustomModeSync(m) =>
            "headphone sync only supports built-in modes Quiet, Aware, Immersion, and Cinema; custom mode '"@
            + m + "' was saved locally only"@,
        ModelErrorView::UnexpectedBatteryResponse { fblock, func } => "unexpected battery response "@
            + crate::bmap::address_text(fblock, func),
        ModelErrorView::BatteryMissingPayload => "battery response missing payload"@,
    }
}

fn wrap_text(before: &str, middle: &String, after: &str) -> (r: String)
    ensures
        r@ == before@ + middle@ + after@,
{
    let mut s = String::from_str(before);
    s.append(middle.as_str());
    s.append(after);
    s
}

impl ModelError {
    pub fn message(&self) -> (r: String)
        ensures
            r@ == model_error_text(self@),
    {
        match self {
            ModelError::NoSelectedDevice => String::from_str("no selected device"),
            ModelError::UnknownModel(d) => wrap_text(
                "unknown Bose model for selected device ",
                d,
                "; refusing to send configuration writes",
            ),
            ModelError::UnsupportedConfig(n) => wrap_text(
                "selected device model '",
                n,
                "' does not support mode/noise/immersive/EQ configuration in this CLI yet",
            ),
            ModelError::SyncUnsupported(n) => wrap_text(
                "model '",
                n,
                "' is recognized but configuration writes are not supported yet",
            ),
            ModelError::BatteryUnsupported(n) => wrap_text(
                "model '",
                n,
                "' is recognized but battery readback is not supported yet",
            ),
            ModelError::NoChannel(n) => wrap_text(
                "model '",
                n,
                "' does not have a known RFCOMM channel in this CLI",
            ),
            ModelError::CustomModeSync(m) => wrap_text(
                "headphone sync only supports built-in modes Quiet, Aware, Immersion, and Cinema; custom mode '",
                m,
                "' was saved locally only",
            ),
            ModelError::UnexpectedBatteryResponse { fblock, func } => {
                let mut s = String::from_str("unexpected battery response ");
                crate::bmap::push_address(&mut s, *fblock, *func);
                s
            },
            ModelError::BatteryMissingPayload => String::from_str("battery response missing payload"),
        }
    }
}

/// The registered models, in the order names are matched against them.
pub open spec fn registered_ids() -> Seq<ModelId> {
    seq![
        ModelId::QcUltraHeadphones2,
        ModelId::QcUltraHeadphones,
        ModelId::QuietComfortHeadphones,
        ModelId::QuietComfort45,
        ModelId::NoiseCancellingHeadphones700,
        ModelId::QuietComfortUltraEarbuds,
        ModelId::QuietComfortEarbuds2,
    ]
}

pub open spec fn model_display_name(id: ModelId) -> Seq<char> {
    match id {
        ModelId::QcUltraHeadphones2 => "Bose QuietComfort Ultra Headphones (2nd Gen)"@,
        ModelId::QcUltraHeadphones => "Bose QuietComfort Ultra Headphones"@,
        ModelId::QuietComfortHeadphones => "Bose QuietComfort Headphones"@,
        ModelId::QuietComfort45 => "Bose QuietComfort 45"@,
        ModelId::NoiseCancellingHeadphones700 => "Bose Noise Cancelling Headphones 700"@,
        ModelId::QuietComfortUltraEarbuds => "Bose QuietComfort Ultra Earbuds"@,
        ModelId::QuietComfortEarbuds2 => "Bose QuietComfort Earbuds II"@,
    }
}

/// The device names under which each model shows up.
pub open spec fn model_aliases(id: ModelId) -> Seq<Seq<char>> {
    match id {
        ModelId::QcUltraHeadphones2 => seq![
            "Bose QC Ultra 2 HP"@,
            "Bose QuietComfort Ultra Headphones (2nd Gen)"@,
            "Bose QuietComfort Ultra Headphones 2"@,
            "Bose QuietComfort Ultra Headphones II"@,
            "Bose QC Ultra Headphones 2"@,
        ],
        ModelId::QcUltraHeadphones => seq![
            "Bose QuietComfort Ultra Headphones"@,
            "Bose QC Ultra HP"@,
        ],
        ModelId::QuietComfortHeadphones => seq![
            "Bose QuietComfort Headphones"@,
            "Bose QC Headphones"@,
        ],
        ModelId::QuietComfort45 => seq![
            "Bose QuietComfort 45"@,
            "Bose QC45"@,
            "Bose QC 45"@,
        ],
        ModelId::NoiseCancellingHeadphones700 => seq![
            "Bose Noise Cancelling Headphones 700"@,
            "Bose NC 700"@,
            "Bose NCH 700"@,
        ],
        ModelId::QuietComfortUltraEarbuds => seq![
            "Bose QuietComfort Ultra Earbuds"@,
            "Bose QC Ultra Earbuds"@,
        ],
        ModelId::QuietComfortEarbuds2 => seq![
            "Bose QuietComfort Earbuds II"@,
            "Bose QuietComfort Earbuds 2"@,
            "Bose QC Earbuds II"@,
        ],
    }
}

/// Only the QC Ultra 2 profile is verified for configuration writes and battery reads.
pub open spec fn model_capabilities(id: ModelId) -> Capabilities {
    if id == ModelId::QcUltraHeadphones2 {
        Capabilities { config_writes: true, battery: true }
    } else {
        Capabilities { config_writes: false, battery: false }
    }
}

pub open spec fn model_channel(id: ModelId) -> Option<u8> {
    if id == ModelId::QcUltraHeadphones2 {
        Some(2)
    } else {
        None
    }
}

pub open spec fn model_modes(id: ModelId) -> Seq<ModeView> {
    if id == ModelId::QcUltraHeadphones2 {
        builtin_mode_views()
    } else {
        Seq::empty()
    }
}

pub open spec fn model_sync_spec(id: ModelId, c: ConfigView) -> Result<
    Seq<RequestView>,
    ModelErrorView,
> {
    if id == ModelId::QcUltraHeadphones2 {
        qc_ultra_2::sync_plan_spec(c)
    } else {
        Err(ModelErrorView::SyncUnsupported(model_display_name(id)))
    }
}

pub open spec fn model_battery_request_spec(id: ModelId, c: ConfigView) -> Result<
    RequestView,
    ModelErrorView,
> {
    if id == ModelId::QcUltraHeadphones2 {
        qc_ultra_2::battery_request_spec(c)
    } else {
        Err(ModelErrorView::BatteryUnsupported(model_display_name(id)))
    }
}

pub open spec fn model_battery_level_spec(id: ModelId, f: FrameView) -> Result<u8, ModelErrorView> {
    if id == ModelId::QcUltraHeadphones2 {
        qc_ultra_2::battery_level_spec(f)
    } else {
        Err(ModelErrorView::BatteryUnsupported(model_display_name(id)))
    }
}

pub open spec fn str_views(v: Seq<&'static str>) -> Seq<Seq<char>> {
    v.map_values(|s: &'static str| s@)
}

/// A headphone model profile.
pub trait HeadphoneModel {
    spec fn model_id(&self) -> ModelId;

    fn id(&self) -> (r: ModelId)
        ensures
            r == self.model_id(),
    ;

    fn display_name(&self) -> (r: &'static str)
        ensures
            r@ == model_display_name(self.model_id()),
    ;

    fn aliases(&self) -> (r: Vec<&'static str>)
        ensures
            str_views(r@) == model_aliases(self.model_id()),
    ;

    fn capabilities(&self) -> (r: Capabilities)
        ensures
            r == model_capabilities(self.model_id()),
    ;

    fn rfcomm_channel(&self) -> (r: Option<u8>)
        ensures
            r == model_channel(self.model_id()),
    ;

    fn builtin_modes(&self) -> (r: Vec<ModePreset>)
        ensures
            mode_views(r@) == model_modes(self.model_id()),
    ;

    /// The requests that put `config` on the headphones.
    fn sync_config(&self, config: &ConfigFile) -> (r: Result<Vec<BmapRequest>, ModelError>)
        requires
            model_sync_spec(self.model_id(), config@) is Ok ==> noise_valid(config.noise),
        ensures
            r matches Ok(rs) ==> model_sync_spec(self.model_id(), config@) == Ok::<
                Seq<RequestView>,
                ModelErrorView,
            >(request_views(rs@)),
            r matches Err(e) ==> model_sync_spec(self.model_id(), config@) == Err::<
                Seq<RequestView>,
                ModelErrorView,
            >(e@),
    ;

    /// The request that reads the battery level.
    fn read_battery(&self, config: &ConfigFile) -> (r: Result<BmapRequest, ModelError>)
        ensures
            r matches Ok(q) ==> model_battery_request_spec(self.model_id(), config@) == Ok::<
                RequestView,
                ModelErrorView,
            >(q@),
            r matches Err(e) ==> model_battery_request_spec(self.model_id(), config@) == Err::<
                RequestView,
                ModelErrorView,
            >(e@),
    ;

    /// The battery level in the response to `read_battery`.
    fn battery_level(&self, frame: &Frame) -> (r: Result<u8, ModelError>)
        ensures
            r matches Ok(v) ==> model_battery_level_spec(self.model_id(), frame@) == Ok::<
                u8,
                ModelErrorView,
            >(v),
            r matches Err(e) ==> model_battery_level_spec(self.model_id(), frame@) == Err::<
                u8,
                ModelErrorView,
            >(e@),
    ;
}

/// A recognized model whose writes are not verified on hardware.
#[derive(Debug)]
pub struct UnsupportedBoseModel {
    id: ModelId,
}

impl UnsupportedBoseModel {
    #[verifier::type_invariant]
    spec fn not_writable(self) -> bool {
        self.id != ModelId::QcUltraHeadphones2
    }
}

fn display_name_of(id: ModelId) -> (r: &'static str)
    ensures
        r@ == model_display_name(id),
{
    match id {
        ModelId::QcUltraHeadphones2 => "Bose QuietComfort Ultra Headphones (2nd Gen)",
        ModelId::QcUltraHeadphones => "Bose QuietComfort Ultra Headphones",
        ModelId::QuietComfortHeadphones => "Bose QuietComfort Headphones",
        ModelId::QuietComfort45 => "Bose QuietComfort 45",
        ModelId::NoiseCancellingHeadphones700 => "Bose Noise Cancelling Headphones 700",
        ModelId::QuietComfortUltraEarbuds => "Bose QuietComfort Ultra Earbuds",
        ModelId::QuietComfortEarbuds2 => "Bose QuietComfort Earbuds II",
    }
}

fn aliases_of(id: ModelId) -> (r: Vec<&'static str>)
    ensures
        str_views(r@) == model_aliases(id),
{
    let r = match id {
        ModelId::QcUltraHeadphones2 => vec![
            "Bose QC Ultra 2 HP",
            "Bose QuietComfort Ultra Headphones (2nd Gen)",
            "Bose QuietComfort Ultra Headphones 2",
            "Bose QuietComfort Ultra Headphones II",
            "Bose QC Ultra Headphones 2",
        ],
        ModelId::QcUltraHeadphones => vec![
            "Bose QuietComfort Ultra Headphones",
            "Bose QC Ultra HP",
        ],
        ModelId::QuietComfortHeadphones => vec![
            "Bose QuietComfort Headphones",
            "Bose QC Headphones",
        ],
        ModelId::QuietComfort45 => vec!["Bose QuietComfort 45", "Bose QC45", "Bose QC 45"],
        ModelId::NoiseCancellingHeadphones700 => vec![
            "Bose Noise Cancelling Headphones 700",
            "Bose NC 700",
            "Bose NCH 700",
        ],
        ModelId::QuietComfortUltraEarbuds => vec![
            "Bose QuietComfort Ultra Earbuds",
            "Bose QC Ultra Earbuds",
        ],
        ModelId::QuietComfortEarbuds2 => vec![
            "Bose QuietComfort Earbuds II",
            "Bose QuietComfort Earbuds 2",
            "Bose QC Earbuds II",
        ],
    };
    assert(str_views(r@) =~= model_aliases(id));
    r
}

impl HeadphoneModel for qc_ultra_2::QcUltra2Model {
    open spec fn model_id(&self) -> ModelId {
        ModelId::QcUltraHeadphones2
    }

    fn id(&self) -> (r: ModelId) {
        ModelId::QcUltraHeadphones2
    }

    fn display_name(&self) -> (r: &'static str) {
        "Bose QuietComfort Ultra Headphones (2nd Gen)"
    }

    fn aliases(&self) -> (r: Vec<&'static str>) {
        aliases_of(ModelId::QcUltraHeadphones2)
    }

    fn capabilities(&self) -> (r: Capabilities) {
        Capabilities { config_writes: true, battery: true }
    }

    fn rfcomm_channel(&self) -> (r: Option<u8>) {
        Some(qc_ultra_2::RFCOMM_CHANNEL)
    }

    fn builtin_modes(&self) -> (r: Vec<ModePreset>) {
        builtin_modes()
    }

    fn sync_config(&self, config: &ConfigFile) -> (r: Result<Vec<BmapRequest>, ModelError>) {
        qc_ultra_2::sync_config(config)
    }

    fn read_battery(&self, config: &ConfigFile) -> (r: Result<BmapRequest, ModelError>) {
        qc_ultra_2::read_battery(config)
    }

    fn battery_level(&self, frame: &Frame) -> (r: Result<u8, ModelError>) {
        qc_ultra_2::battery_level(frame)
    }
}

impl HeadphoneModel for UnsupportedBoseModel {
    closed spec fn model_id(&self) -> ModelId {
        self.id
    }

    fn id(&self) -> (r: ModelId) {
        self.id
    }

    fn display_name(&self) -> (r: &'static str) {
        display_name_of(self.id)
    }

    fn aliases(&self) -> (r: Vec<&'static str>) {
        aliases_of(self.id)
    }

    fn capabilities(&self) -> (r: Capabilities) {
        proof {
            use_type_invariant(self);
        }
        Capabilities { config_writes: false, battery: false }
    }

    fn rfcomm_channel(&self) -> (r: Option<u8>) {
        proof {
            use_type_invariant(self);
        }
        None
    }

    fn builtin_modes(&self) -> (r: Vec<ModePreset>) {
        proof {
            use_type_invariant(self);
        }
        let r = Vec::new();
        assert(mode_views(r@) =~= Seq::<ModeView>::empty());
        r
    }

    fn sync_config(&self, config: &ConfigFile) -> (r: Result<Vec<BmapRequest>, ModelError>) {
        proof {
            use_type_invariant(self);
        }
        Err(ModelError::SyncUnsupported(String::from_str(display_name_of(self.id))))
    }

    fn read_battery(&self, config: &ConfigFile) -> (r: Result<BmapRequest, ModelError>) {
        proof {
            use_type_invariant(self);
        }
        Err(ModelError::BatteryUnsupported(String::from_str(display_name_of(self.id))))
    }

    fn battery_level(&self, frame: &Frame) -> (r: Result<u8, ModelError>) {
        proof {
            use_type_invariant(self);
        }
        Err(ModelError::BatteryUnsupported(String::from_str(display_name_of(self.id))))
    }
}

/// A model of the registry.
#[derive(Debug)]
pub enum RegisteredModel {
    QcUltra2(qc_ultra_2::QcUltra2Model),
    Unsupported(UnsupportedBoseModel),
}

impl HeadphoneModel for RegisteredModel {
    open spec fn model_id(&self) -> ModelId {
        match self {
            RegisteredModel::QcUltra2(m) => m.model_id(),
            RegisteredModel::Unsupported(m) => m.model_id(),
        }
    }

    fn id(&self) -> (r: ModelId) {
        match self {
            RegisteredModel::QcUltra2(m) => m.id(),
            RegisteredModel::Unsupported(m) => m.id(),
        }
    }

    fn display_name(&self) -> (r: &'static str) {
        match self {
            RegisteredModel::QcUltra2(m) => m.display_name(),
            RegisteredModel::Unsupported(m) => m.display_name(),
        }
    }

    fn aliases(&self) -> (r: Vec<&'static str>) {
        match self {
            RegisteredModel::QcUltra2(m) => m.aliases(),
            RegisteredModel::Unsupported(m) => m.aliases(),
        }
    }

    fn capabilities(&self) -> (r: Capabilities) {
        match self {
            RegisteredModel::QcUltra2(m) => m.capabilities(),
            RegisteredModel::Unsupported(m) => m.capabilities(),
        }
    }

    fn rfcomm_channel(&self) -> (r: Option<u8>) {
        match self {
            RegisteredModel::QcUltra2(m) => m.rfcomm_channel(),
            RegisteredModel::Unsupported(m) => m.rfcomm_channel(),
        }
    }

    fn builtin_modes(&self) -> (r: Vec<ModePreset>) {
        match self {
            RegisteredModel::QcUltra2(m) => m.builtin_modes(),
            RegisteredModel::Unsupported(m) => m.builtin_modes(),
        }
    }

    fn sync_config(&self, config: &ConfigFile) -> (r: Result<Vec<BmapRequest>, ModelError>) {
        match self {
            RegisteredModel::QcUltra2(m) => m.sync_config(config),
            RegisteredModel::Unsupported(m) => m.sync_config(config),
        }
    }

    fn read_battery(&self, config: &ConfigFile) -> (r: Result<BmapRequest, ModelError>) {
        match self {
            RegisteredModel::QcUltra2(m) => m.read_battery(config),
            RegisteredModel::Unsupported(m) => m.read_battery(config),
        }
    }

    fn battery_level(&self, frame: &Frame) -> (r: Result<u8, ModelError>) {
        match self {
            RegisteredModel::QcUltra2(m) => m.battery_level(frame),
            RegisteredModel::Unsupported(m) => m.battery_level(frame),
        }
    }
}

/// The registry entry of a model.
pub fn model(id: ModelId) -> (r: RegisteredModel)
    ensures
        r.model_id() == id,
{
    match id {
        ModelId::QcUltraHeadphones2 => RegisteredModel::QcUltra2(qc_ultra_2::QcUltra2Model),
        _ => RegisteredModel::Unsupported(UnsupportedBoseModel { id }),
    }
}

pub open spec fn registered_model_ids(ms: Seq<RegisteredModel>) -> Seq<ModelId> {
    ms.map_values(|m: RegisteredModel| m.model_id())
}

/// Every registered model, in matching order.
pub fn all_models() -> (r: Vec<RegisteredModel>)
    ensures
        registered_model_ids(r@) == registered_ids(),
{
    let r = vec![
        model(ModelId::QcUltraHeadphones2),
        model(ModelId::QcUltraHeadphones),
        model(ModelId::QuietComfortHeadphones),
        model(ModelId::QuietComfort45),
        model(ModelId::NoiseCancellingHeadphones700),
        model(ModelId::QuietComfortUltraEarbuds),
        model(ModelId::QuietComfortEarbuds2),
    ];
    assert(registered_model_ids(r@) =~= registered_ids());
    r
}

/// A name reduced to its ASCII letters and digits, lowercased.
pub open spec fn normalize(s: Seq<char>) -> Seq<char>
    decreases s.len(),
{
    if s.len() == 0 {
        s
    } else if is_ascii_alnum(s.last()) {
        normalize(s.drop_last()).push(ascii_lower(s.last()))
    } else {
        normalize(s.drop_last())
    }
}

pub fn normalize_name(value: &str) -> (r: String)
    ensures
        r@ == normalize(value@),
{
    let n = value.unicode_len();
    let mut out = String::new();
    assert(value@.take(0) =~= Seq::<char>::empty());
    for i in 0..n
        invariant
            n == value@.len(),
            out@ == normalize(value@.take(i as int)),
    {
        let c = value.get_char(i);
        assert(value@.take(i + 1).drop_last() =~= value@.take(i as int));
        if ('0' <= c && c <= '9') || ('a' <= c && c <= 'z') || ('A' <= c && c <= 'Z') {
            push_char(&mut out, char_to_ascii_lowercase(c));
        }
    }
    assert(value@.take(n as int) =~= value@);
    out
}

/// Whether one of the model's aliases normalizes to `n`.
pub open spec fn has_alias(id: ModelId, n: Seq<char>) -> bool {
    exists|i: int| 0 <= i < model_aliases(id).len() && normalize(#[trigger] model_aliases(id)[i]) == n
}

/// The first model of `ids` with an alias that normalizes to `n`.
pub open spec fn first_alias_match(ids: Seq<ModelId>, n: Seq<char>) -> Option<ModelId>
    decreases ids.len(),
{
    if ids.len() == 0 {
        None
    } else if has_alias(ids[0], n) {
        Some(ids[0])
    } else {
        first_alias_match(ids.drop_first(), n)
    }
}

/// The model whose alias matches a device name, compared on letters and digits only.
pub open spec fn infer_spec(name: Seq<char>) -> Option<ModelId> {
    first_alias_match(registered_ids(), normalize(name))
}

fn model_has_alias<M: HeadphoneModel>(m: &M, normalized: &String) -> (r: bool)
    ensures
        r == has_alias(m.model_id(), normalized@),
{
    let aliases = m.aliases();
    let ghost al = model_aliases(m.model_id());
    let n = aliases.len();
    for i in 0..n
        invariant
            n == aliases@.len(),
            str_views(aliases@) == al,
            al == model_aliases(m.model_id()),
            forall|k: int| 0 <= k < i ==> normalize(#[trigger] al[k]) != normalized@,
    {
        assert(al[i as int] == aliases@[i as int]@);
        let a = normalize_name(aliases[i]);
        if a == *normalized {
            return true;
        }
    }
    false
}

pub fn infer_model_from_name(name: &str) -> (r: Option<ModelId>)
    ensures
        r == infer_spec(name@),
{
    let normalized = normalize_name(name);
    let models = all_models();
    let ghost ids = registered_model_ids(models@);
    let n = models.len();
    assert(ids.skip(0) =~= ids);
    for i in 0..n
        invariant
            n == ids.len(),
            ids == registered_model_ids(models@),
            ids == registered_ids(),
            normalized@ == normalize(name@),
            first_alias_match(ids, normalized@) == first_alias_match(ids.skip(i as int), normalized@),
    {
        assert(ids.skip(i as int)[0] == models@[i as int].model_id());
        assert(ids.skip(i as int).drop_first() =~= ids.skip(i + 1));
        if model_has_alias(&models[i], &normalized) {
            return Some(models[i].id());
        }
    }
    None
}

/// The model of a device: the stored one, checked against the one its name
/// implies; a disagreement leaves the model unknown.
pub open spec fn resolve_spec(d: DeviceView) -> Option<ModelId> {
    let inferred = match d.name {
        Some(n) => infer_spec(n),
        None => None,
    };
    match (d.model, inferred) {
        (Some(explicit), Some(i)) => if explicit != i {
            None
        } else {
            Some(explicit)
        },
        (Some(explicit), None) => Some(explicit),
        (None, i) => i,
    }
}

pub fn resolve_device_model(device: &DeviceRef) -> (r: Option<ModelId>)
    ensures
        r == resolve_spec(device@),
{
    let inferred = match &device.name {
        Some(n) => infer_model_from_name(n.as_str()),
        None => None,
    };
    match (device.model, inferred) {
        (Some(explicit), Some(i)) => if explicit != i {
            None
        } else {
            Some(explicit)
        },
        (Some(explicit), None) => Some(explicit),
        (None, i) => i,
    }
}

/// The model of the selected device, or why there is none.
pub open spec fn selected_model_spec(c: ConfigView) -> Result<ModelId, ModelErrorView> {
    match c.selected_device {
        None => Err(ModelErrorView::NoSelectedDevice),
        Some(d) => match resolve_spec(d) {
            None => Err(ModelErrorView::UnknownModel(device_display(d))),
            Some(id) => Ok(id),
        },
    }
}

pub fn selected_device_model(config: &ConfigFile) -> (r: Result<RegisteredModel, ModelError>)
    ensures
        r matches Ok(m) ==> selected_model_spec(config@) == Ok::<ModelId, ModelErrorView>(
            m.model_id(),
        ),
        r matches Err(e) ==> selected_model_spec(config@) == Err::<ModelId, ModelErrorView>(e@),
{
    let device = match &config.selected_device {
        Some(d) => d,
        None => return Err(ModelError::NoSelectedDevice),
    };
    match resolve_device_model(device) {
        Some(id) => Ok(model(id)),
        None => Err(ModelError::UnknownModel(device.display())),
    }
}

/// Whether the configuration commands may proceed: they may without a
/// selected device, and with one only when its model takes configuration writes.
pub open spec fn supports_config_spec(c: ConfigView) -> Result<(), ModelErrorView> {
    match c.selected_device {
        None => Ok(()),
        Some(_) => match selected_model_spec(c) {
            Err(e) => Err(e),
            Ok(id) => if model_capabilities(id).config_writes {
                Ok(())
            } else {
                Err(ModelErrorView::UnsupportedConfig(model_display_name(id)))
            },
        },
    }
}

pub fn ensure_selected_device_supports_config(config: &ConfigFile) -> (r: Result<(), ModelError>)
    ensures
        r is Ok <==> supports_config_spec(config@) is Ok,
        r matches Err(e) ==> supports_config_spec(config@) == Err::<(), ModelErrorView>(e@),
{
    if config.selected_device.is_none() {
        return Ok(());
    }
    let model = selected_device_model(config)?;
    if !model.capabilities().config_writes {
        return Err(ModelError::UnsupportedConfig(String::from_str(model.display_name())));
    }
    Ok(())
}

/// The requests that sync a configuration to the selected model.
pub open spec fn selected_sync_spec(c: ConfigView) -> Result<Seq<RequestView>, ModelErrorView> {
    match selected_model_spec(c) {
        Err(e) => Err(e),
        Ok(id) => model_sync_spec(id, c),
    }
}

/// The noise level must be in range only where a plan is built, as the audio
/// settings write carries it.
pub fn sync_selected_config(config: &ConfigFile) -> (r: Result<Vec<BmapRequest>, ModelError>)
    requires
        selected_sync_spec(config@) is Ok ==> noise_valid(config.noise),
    ensures
        r matches Ok(rs) ==> selected_sync_spec(config@) == Ok::<Seq<RequestView>, ModelErrorView>(
            request_views(rs@),
        ),
        r matches Err(e) ==> selected_sync_spec(config@) == Err::<Seq<RequestView>, ModelErrorView>(
            e@,
        ),
{
    let model = selected_device_model(config)?;
    model.sync_config(config)
}

/// Whether syncing would build a plan, and so write the audio settings with
/// the noise level, rather than stop at an error.
pub fn sync_builds_plan(config: &ConfigFile) -> (r: bool)
    ensures
        r == selected_sync_spec(config@) is Ok,
{
    let model = match selected_device_model(config) {
        Ok(m) => m,
        Err(_) => return false,
    };
    if model.id() != ModelId::QcUltraHeadphones2 {
        return false;
    }
    match &config.active_mode {
        None => true,
        Some(m) => qc_ultra_2::mode_index(m.as_str()).is_some(),
    }
}

/// The battery read for the selected model.
pub open spec fn selected_battery_spec(c: ConfigView) -> Result<RequestView, ModelErrorView> {
    match selected_model_spec(c) {
        Err(e) => Err(e),
        Ok(id) => model_battery_request_spec(id, c),
    }
}

pub fn read_selected_battery(config: &ConfigFile) -> (r: Result<BmapRequest, ModelError>)
    ensures
        r matches Ok(q) ==> selected_battery_spec(config@) == Ok::<RequestView, ModelErrorView>(q@),
        r matches Err(e) ==> selected_battery_spec(config@) == Err::<RequestView, ModelErrorView>(
            e@,
        ),
{
    let model = selected_device_model(config)?;
    model.read_battery(config)
}

/// The RFCOMM channel of the selected model.
pub open spec fn selected_channel_spec(c: ConfigView) -> Result<u8, ModelErrorView> {
    match selected_model_spec(c) {
        Err(e) => Err(e),
        Ok(id) => match model_channel(id) {
            Some(ch) => Ok(ch),
            None => Err(ModelErrorView::NoChannel(model_display_name(id))),
        },
    }
}

pub fn selected_rfcomm_channel(config: &ConfigFile) -> (r: Result<u8, ModelError>)
    ensures
        r matches Ok(ch) ==> selected_channel_spec(config@) == Ok::<u8, ModelErrorView>(ch),
        r matches Err(e) ==> selected_channel_spec(config@) == Err::<u8, ModelErrorView>(e@),
{
    let model = selected_device_model(config)?;
    match model.rfcomm_channel() {
        Some(ch) => Ok(ch),
        None => Err(ModelError::NoChannel(String::from_str(model.display_name()))),
    }
}

/// Only the verified QC Ultra 2 profile ever yields a sync plan: any other
/// selected model, known or not, is refused before a request is built.
pub proof fn lemma_sync_only_for_verified_model(c: ConfigView)
    requires
        selected_sync_spec(c) is Ok,
    ensures
        selected_model_spec(c) == Ok::<ModelId, ModelErrorView>(ModelId::QcUltraHeadphones2),
{
}

/// A selected model without configuration writes makes the configuration
/// commands refuse, naming the model.
pub proof fn lemma_unsupported_model_refuses_config(c: ConfigView, id: ModelId)
    requires
        c.selected_device is Some,
        selected_model_spec(c) == Ok::<ModelId, ModelErrorView>(id),
        id != ModelId::QcUltraHeadphones2,
    ensures
        supports_config_spec(c) == Err::<(), ModelErrorView>(
            ModelErrorView::UnsupportedConfig(model_display_name(id)),
        ),
{
}

/// A stored model that the device name contradicts is not trusted.
pub proof fn lemma_model_name_mismatch_untrusted(d: DeviceView)
    requires
        d.model is Some,
        d.name is Some,
        infer_spec(d.name->Some_0) is Some,
        infer_spec(d.name->Some_0) != d.model,
    ensures
        resolve_spec(d) is None,
{
}

/// Names that differ only in case, spacing or punctuation resolve alike.
pub proof fn lemma_infer_ignores_punctuation(a: Seq<char>, b: Seq<char>)
    requires
        normalize(a) == normalize(b),
    ensures
        infer_spec(a) == infer_spec(b),
{
}

} // verus!

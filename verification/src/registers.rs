use vstd::prelude::*;

use crate::text::{
    ascii_lower, lemma_ascii_lower_idempotent, lemma_trim_ascii_lower_commute, lemma_trim_idempotent,
    lower_range_eq, trim, trim_bounds,
};

verus! {

/// How the value of a parameter is encoded on the bus.
#[derive(Debug, Clone, Copy, PartialEq, Eq, Structural)]
pub enum ParameterDataType {
    Int8,
    Int16,
    Int32,
    UInt8,
    UInt16,
    UInt32,
    Float32,
    String,
}

/// One entry of a parameter table.
#[derive(Debug, Clone, Copy)]
pub struct ParameterInfo {
    pub id: u16,
    pub name: &'static str,
    pub data_type: ParameterDataType,
}

/// The mathematical value of a table entry: its id, its name and its type.
pub type ParameterView = (u16, Seq<char>, ParameterDataType);

impl View for ParameterInfo {
    type V = ParameterView;

    open spec fn view(&self) -> ParameterView {
        (self.id, self.name@, self.data_type)
    }
}

/// The common runtime control and readback parameters of the RobStride
/// protocol (`0x7005..=0x702E`), by name.
#[derive(Debug, Clone, Copy, PartialEq, Eq, Structural)]
pub enum ParameterId {
    Mode,
    IqTarget,
    VelocityTarget,
    TorqueLimit,
    CurrentKp,
    CurrentKi,
    CurrentFilterGain,
    PositionTarget,
    VelocityLimit,
    CurrentLimit,
    MechanicalPosition,
    IqFiltered,
    MechanicalVelocity,
    Vbus,
    PositionKp,
    VelocityKp,
    VelocityKi,
    VelocityFilterGain,
    VelocityAccelerationTarget,
    PpVelocityMax,
    PpAccelerationTarget,
    EpscanTime,
    CanTimeout,
    ZeroState,
    Damper,
    AddOffset,
    AlveolousOpen,
    IqTest,
    DccSet,
}

impl ParameterId {
    /// The id of the parameter on the bus.
    pub open spec fn id_value(self) -> u16 {
        match self {
            ParameterId::Mode => 0x7005,
            ParameterId::IqTarget => 0x7006,
            ParameterId::VelocityTarget => 0x700A,
            ParameterId::TorqueLimit => 0x700B,
            ParameterId::CurrentKp => 0x7010,
            ParameterId::CurrentKi => 0x7011,
            ParameterId::CurrentFilterGain => 0x7014,
            ParameterId::PositionTarget => 0x7016,
            ParameterId::VelocityLimit => 0x7017,
            ParameterId::CurrentLimit => 0x7018,
            ParameterId::MechanicalPosition => 0x7019,
            ParameterId::IqFiltered => 0x701A,
            ParameterId::MechanicalVelocity => 0x701B,
            ParameterId::Vbus => 0x701C,
            ParameterId::PositionKp => 0x701E,
            ParameterId::VelocityKp => 0x701F,
            ParameterId::VelocityKi => 0x7020,
            ParameterId::VelocityFilterGain => 0x7021,
            ParameterId::VelocityAccelerationTarget => 0x7022,
            ParameterId::PpVelocityMax => 0x7024,
            ParameterId::PpAccelerationTarget => 0x7025,
            ParameterId::EpscanTime => 0x7026,
            ParameterId::CanTimeout => 0x7028,
            ParameterId::ZeroState => 0x7029,
            ParameterId::Damper => 0x702A,
            ParameterId::AddOffset => 0x702B,
            ParameterId::AlveolousOpen => 0x702C,
            ParameterId::IqTest => 0x702D,
            ParameterId::DccSet => 0x702E,
        }
    }

    /// The id of the parameter on the bus.
    pub fn as_u16(self) -> (id: u16)
        ensures
            id == self.id_value(),
    {
        match self {
            ParameterId::Mode => 0x7005,
            ParameterId::IqTarget => 0x7006,
            ParameterId::VelocityTarget => 0x700A,
            ParameterId::TorqueLimit => 0x700B,
            ParameterId::CurrentKp => 0x7010,
            ParameterId::CurrentKi => 0x7011,
            ParameterId::CurrentFilterGain => 0x7014,
            ParameterId::PositionTarget => 0x7016,
            ParameterId::VelocityLimit => 0x7017,
            ParameterId::CurrentLimit => 0x7018,
            ParameterId::MechanicalPosition => 0x7019,
            ParameterId::IqFiltered => 0x701A,
            ParameterId::MechanicalVelocity => 0x701B,
            ParameterId::Vbus => 0x701C,
            ParameterId::PositionKp => 0x701E,
            ParameterId::VelocityKp => 0x701F,
            ParameterId::VelocityKi => 0x7020,
            ParameterId::VelocityFilterGain => 0x7021,
            ParameterId::VelocityAccelerationTarget => 0x7022,
            ParameterId::PpVelocityMax => 0x7024,
            ParameterId::PpAccelerationTarget => 0x7025,
            ParameterId::EpscanTime => 0x7026,
            ParameterId::CanTimeout => 0x7028,
            ParameterId::ZeroState => 0x7029,
            ParameterId::Damper => 0x702A,
            ParameterId::AddOffset => 0x702B,
            ParameterId::AlveolousOpen => 0x702C,
            ParameterId::IqTest => 0x702D,
            ParameterId::DccSet => 0x702E,
        }
    }
}

/// The parameter whose position in the common table is `i`.
spec fn parameter_at(i: int) -> ParameterId {
    if i == 0 { ParameterId::Mode }
    else if i == 1 { ParameterId::IqTarget }
    else if i == 2 { ParameterId::VelocityTarget }
    else if i == 3 { ParameterId::TorqueLimit }
    else if i == 4 { ParameterId::CurrentKp }
    else if i == 5 { ParameterId::CurrentKi }
    else if i == 6 { ParameterId::CurrentFilterGain }
    else if i == 7 { ParameterId::PositionTarget }
    else if i == 8 { ParameterId::VelocityLimit }
    else if i == 9 { ParameterId::CurrentLimit }
    else if i == 10 { ParameterId::MechanicalPosition }
    else if i == 11 { ParameterId::IqFiltered }
    else if i == 12 { ParameterId::MechanicalVelocity }
    else if i == 13 { ParameterId::Vbus }
    else if i == 14 { ParameterId::PositionKp }
    else if i == 15 { ParameterId::VelocityKp }
    else if i == 16 { ParameterId::VelocityKi }
    else if i == 17 { ParameterId::VelocityFilterGain }
    else if i == 18 { ParameterId::VelocityAccelerationTarget }
    else if i == 19 { ParameterId::PpVelocityMax }
    else if i == 20 { ParameterId::PpAccelerationTarget }
    else if i == 21 { ParameterId::EpscanTime }
    else if i == 22 { ParameterId::CanTimeout }
    else if i == 23 { ParameterId::ZeroState }
    else if i == 24 { ParameterId::Damper }
    else if i == 25 { ParameterId::AddOffset }
    else if i == 26 { ParameterId::AlveolousOpen }
    else if i == 27 { ParameterId::IqTest }
    else { ParameterId::DccSet }
}

/// The position of a parameter in the common table.
spec fn position_of(p: ParameterId) -> int {
    match p {
        ParameterId::Mode => 0,
        ParameterId::IqTarget => 1,
        ParameterId::VelocityTarget => 2,
        ParameterId::TorqueLimit => 3,
        ParameterId::CurrentKp => 4,
        ParameterId::CurrentKi => 5,
        ParameterId::CurrentFilterGain => 6,
        ParameterId::PositionTarget => 7,
        ParameterId::VelocityLimit => 8,
        ParameterId::CurrentLimit => 9,
        ParameterId::MechanicalPosition => 10,
        ParameterId::IqFiltered => 11,
        ParameterId::MechanicalVelocity => 12,
        ParameterId::Vbus => 13,
        ParameterId::PositionKp => 14,
        ParameterId::VelocityKp => 15,
        ParameterId::VelocityKi => 16,
        ParameterId::VelocityFilterGain => 17,
        ParameterId::VelocityAccelerationTarget => 18,
        ParameterId::PpVelocityMax => 19,
        ParameterId::PpAccelerationTarget => 20,
        ParameterId::EpscanTime => 21,
        ParameterId::CanTimeout => 22,
        ParameterId::ZeroState => 23,
        ParameterId::Damper => 24,
        ParameterId::AddOffset => 25,
        ParameterId::AlveolousOpen => 26,
        ParameterId::IqTest => 27,
        ParameterId::DccSet => 28,
    }
}

/// Number of entries of the common runtime control table.
pub open spec fn common_table_len() -> nat {
    29
}

/// Entry `i` of the common runtime control table.
pub open spec fn common_entry(i: int) -> ParameterView {
    if i == 0 { (0x7005, "run_mode"@, ParameterDataType::Int8) }
    else if i == 1 { (0x7006, "iq_ref"@, ParameterDataType::Float32) }
    else if i == 2 { (0x700A, "spd_ref"@, ParameterDataType::Float32) }
    else if i == 3 { (0x700B, "limit_torque"@, ParameterDataType::Float32) }
    else if i == 4 { (0x7010, "cur_kp"@, ParameterDataType::Float32) }
    else if i == 5 { (0x7011, "cur_ki"@, ParameterDataType::Float32) }
    else if i == 6 { (0x7014, "cur_filter_gain"@, ParameterDataType::Float32) }
    else if i == 7 { (0x7016, "loc_ref"@, ParameterDataType::Float32) }
    else if i == 8 { (0x7017, "limit_spd"@, ParameterDataType::Float32) }
    else if i == 9 { (0x7018, "limit_cur"@, ParameterDataType::Float32) }
    else if i == 10 { (0x7019, "mechPos"@, ParameterDataType::Float32) }
    else if i == 11 { (0x701A, "iqf"@, ParameterDataType::Float32) }
    else if i == 12 { (0x701B, "mechVel"@, ParameterDataType::Float32) }
    else if i == 13 { (0x701C, "VBUS"@, ParameterDataType::Float32) }
    else if i == 14 { (0x701E, "loc_kp"@, ParameterDataType::Float32) }
    else if i == 15 { (0x701F, "spd_kp"@, ParameterDataType::Float32) }
    else if i == 16 { (0x7020, "spd_ki"@, ParameterDataType::Float32) }
    else if i == 17 { (0x7021, "spd_filter_gain"@, ParameterDataType::Float32) }
    else if i == 18 { (0x7022, "acc_rad"@, ParameterDataType::Float32) }
    else if i == 19 { (0x7024, "vel_max"@, ParameterDataType::Float32) }
    else if i == 20 { (0x7025, "acc_set"@, ParameterDataType::Float32) }
    else if i == 21 { (0x7026, "EPScan_time"@, ParameterDataType::UInt16) }
    else if i == 22 { (0x7028, "canTimeout"@, ParameterDataType::UInt32) }
    else if i == 23 { (0x7029, "zero_sta"@, ParameterDataType::UInt8) }
    else if i == 24 { (0x702A, "damper"@, ParameterDataType::UInt8) }
    else if i == 25 { (0x702B, "add_offset"@, ParameterDataType::Float32) }
    else if i == 26 { (0x702C, "alveolous_open"@, ParameterDataType::UInt8) }
    else if i == 27 { (0x702D, "iq_test"@, ParameterDataType::UInt8) }
    else { (0x702E, "dcc_set"@, ParameterDataType::Float32) }
}

/// The common runtime control table, in its order.
pub open spec fn common_table() -> Seq<ParameterView> {
    Seq::new(common_table_len(), |i: int| common_entry(i))
}

/// The first entry of `table` whose id is `id`, if there is one.
pub open spec fn lookup(table: Seq<ParameterView>, id: u16) -> Option<ParameterView>
    decreases table.len(),
{
    if table.len() == 0 {
        None
    } else if table[0].0 == id {
        Some(table[0])
    } else {
        lookup(table.drop_first(), id)
    }
}

/// Entry `i` of the common runtime control table.
fn common_parameter(i: usize) -> (info: ParameterInfo)
    requires
        i < common_table_len(),
    ensures
        info@ == common_entry(i as int),
{
    match i {
        0 => ParameterInfo { id: 0x7005, name: "run_mode", data_type: ParameterDataType::Int8 },
        1 => ParameterInfo { id: 0x7006, name: "iq_ref", data_type: ParameterDataType::Float32 },
        2 => ParameterInfo { id: 0x700A, name: "spd_ref", data_type: ParameterDataType::Float32 },
        3 => ParameterInfo { id: 0x700B, name: "limit_torque", data_type: ParameterDataType::Float32 },
        4 => ParameterInfo { id: 0x7010, name: "cur_kp", data_type: ParameterDataType::Float32 },
        5 => ParameterInfo { id: 0x7011, name: "cur_ki", data_type: ParameterDataType::Float32 },
        6 => ParameterInfo { id: 0x7014, name: "cur_filter_gain", data_type: ParameterDataType::Float32 },
        7 => ParameterInfo { id: 0x7016, name: "loc_ref", data_type: ParameterDataType::Float32 },
        8 => ParameterInfo { id: 0x7017, name: "limit_spd", data_type: ParameterDataType::Float32 },
        9 => ParameterInfo { id: 0x7018, name: "limit_cur", data_type: ParameterDataType::Float32 },
        10 => ParameterInfo { id: 0x7019, name: "mechPos", data_type: ParameterDataType::Float32 },
        11 => ParameterInfo { id: 0x701A, name: "iqf", data_type: ParameterDataType::Float32 },
        12 => ParameterInfo { id: 0x701B, name: "mechVel", data_type: ParameterDataType::Float32 },
        13 => ParameterInfo { id: 0x701C, name: "VBUS", data_type: ParameterDataType::Float32 },
        14 => ParameterInfo { id: 0x701E, name: "loc_kp", data_type: ParameterDataType::Float32 },
        15 => ParameterInfo { id: 0x701F, name: "spd_kp", data_type: ParameterDataType::Float32 },
        16 => ParameterInfo { id: 0x7020, name: "spd_ki", data_type: ParameterDataType::Float32 },
        17 => ParameterInfo { id: 0x7021, name: "spd_filter_gain", data_type: ParameterDataType::Float32 },
        18 => ParameterInfo { id: 0x7022, name: "acc_rad", data_type: ParameterDataType::Float32 },
        19 => ParameterInfo { id: 0x7024, name: "vel_max", data_type: ParameterDataType::Float32 },
        20 => ParameterInfo { id: 0x7025, name: "acc_set", data_type: ParameterDataType::Float32 },
        21 => ParameterInfo { id: 0x7026, name: "EPScan_time", data_type: ParameterDataType::UInt16 },
        22 => ParameterInfo { id: 0x7028, name: "canTimeout", data_type: ParameterDataType::UInt32 },
        23 => ParameterInfo { id: 0x7029, name: "zero_sta", data_type: ParameterDataType::UInt8 },
        24 => ParameterInfo { id: 0x702A, name: "damper", data_type: ParameterDataType::UInt8 },
        25 => ParameterInfo { id: 0x702B, name: "add_offset", data_type: ParameterDataType::Float32 },
        26 => ParameterInfo { id: 0x702C, name: "alveolous_open", data_type: ParameterDataType::UInt8 },
        27 => ParameterInfo { id: 0x702D, name: "iq_test", data_type: ParameterDataType::UInt8 },
        _ => ParameterInfo { id: 0x702E, name: "dcc_set", data_type: ParameterDataType::Float32 },
    }
}

/// The values of the entries of a table.
pub open spec fn table_view(table: Seq<ParameterInfo>) -> Seq<ParameterView> {
    table.map_values(|p: ParameterInfo| p@)
}

/// The value of a found entry.
pub open spec fn found_view(found: Option<ParameterInfo>) -> Option<ParameterView> {
    match found {
        Some(p) => Some(p@),
        None => None,
    }
}

/// The common runtime control table (`0x7005..=0x702E`).
pub fn parameter_table() -> (table: Vec<ParameterInfo>)
    ensures
        table_view(table@) == common_table(),
{
    let mut table: Vec<ParameterInfo> = Vec::new();
    let mut i: usize = 0;
    while i < 29
        invariant
            i <= 29,
            table@.len() == i,
            forall|j: int| 0 <= j < i ==> #[trigger] table@[j]@ == common_table()[j],
        decreases 29 - i,
    {
        table.push(common_parameter(i));
        i = i + 1;
    }
    assert(table_view(table@) =~= common_table());
    table
}

/// The first entry of `table` whose id is `id`, as `iter().find` gives it.
fn find_parameter(table: &Vec<ParameterInfo>, id: u16) -> (found: Option<ParameterInfo>)
    ensures
        found_view(found) == lookup(table_view(table@), id),
{
    let ghost whole = table_view(table@);
    let mut i: usize = 0;
    assert(whole.skip(0) =~= whole);
    while i < table.len()
        invariant
            i <= table@.len(),
            whole == table_view(table@),
            lookup(whole.skip(i as int), id) == lookup(whole, id),
        decreases table@.len() - i,
    {
        if table[i].id == id {
            assert(whole.skip(i as int)[0] == table@[i as int]@);
            return Some(table[i]);
        }
        assert(whole.skip(i as int).drop_first() =~= whole.skip(i + 1));
        i = i + 1;
    }
    None
}

/// The entry of the common runtime control table with the id `id`, if any.
pub fn parameter_info(id: u16) -> (found: Option<ParameterInfo>)
    ensures
        found_view(found) == lookup(common_table(), id),
{
    let table = parameter_table();
    find_parameter(&table, id)
}

/// The RobStride motor models that have a table of their own.
#[derive(Debug, Clone, Copy, PartialEq, Eq, Structural)]
pub enum MotorModel {
    Rs00,
    Rs01,
    Rs02,
    Rs03,
    Rs04,
    Rs05,
    Rs06,
}

/// The model that a name designates: `rs-0N` or `rs0N`, for `N` from 0 to 6,
/// up to ASCII case and surrounding white space.
pub open spec fn model_from_name(name: Seq<char>) -> Option<MotorModel> {
    let n = ascii_lower(trim(name));
    if n == "rs-00"@ || n == "rs00"@ {
        Some(MotorModel::Rs00)
    } else if n == "rs-01"@ || n == "rs01"@ {
        Some(MotorModel::Rs01)
    } else if n == "rs-02"@ || n == "rs02"@ {
        Some(MotorModel::Rs02)
    } else if n == "rs-03"@ || n == "rs03"@ {
        Some(MotorModel::Rs03)
    } else if n == "rs-04"@ || n == "rs04"@ {
        Some(MotorModel::Rs04)
    } else if n == "rs-05"@ || n == "rs05"@ {
        Some(MotorModel::Rs05)
    } else if n == "rs-06"@ || n == "rs06"@ {
        Some(MotorModel::Rs06)
    } else {
        None
    }
}

/// The table of a model. Each model's table holds the runtime control
/// parameters; its model-specific factory and diagnostic entries
/// (`0x2000`/`0x3000`) are not active.
pub open spec fn model_table(model: MotorModel) -> Seq<ParameterView> {
    common_table()
}

/// The table that a model name selects: that of the model, or the common
/// table where the name designates none.
pub open spec fn table_for_model(name: Seq<char>) -> Seq<ParameterView> {
    match model_from_name(name) {
        Some(m) => model_table(m),
        None => common_table(),
    }
}

/// The entry for `id` that a model name selects: from the model's table,
/// else from the common table.
pub open spec fn info_for_model(name: Seq<char>, id: u16) -> Option<ParameterView> {
    match lookup(table_for_model(name), id) {
        Some(p) => Some(p),
        None => lookup(common_table(), id),
    }
}

/// The model that `name` designates, if any.
pub fn motor_model_from_name(name: &str) -> (model: Option<MotorModel>)
    ensures
        model == model_from_name(name@),
{
    let (a, b) = trim_bounds(name, 0, name.unicode_len());
    proof {
        assert(name@.subrange(0, name@.len() as int) =~= name@);
    }
    if lower_range_eq(name, a, b, "rs-00") || lower_range_eq(name, a, b, "rs00") {
        Some(MotorModel::Rs00)
    } else if lower_range_eq(name, a, b, "rs-01") || lower_range_eq(name, a, b, "rs01") {
        Some(MotorModel::Rs01)
    } else if lower_range_eq(name, a, b, "rs-02") || lower_range_eq(name, a, b, "rs02") {
        Some(MotorModel::Rs02)
    } else if lower_range_eq(name, a, b, "rs-03") || lower_range_eq(name, a, b, "rs03") {
        Some(MotorModel::Rs03)
    } else if lower_range_eq(name, a, b, "rs-04") || lower_range_eq(name, a, b, "rs04") {
        Some(MotorModel::Rs04)
    } else if lower_range_eq(name, a, b, "rs-05") || lower_range_eq(name, a, b, "rs05") {
        Some(MotorModel::Rs05)
    } else if lower_range_eq(name, a, b, "rs-06") || lower_range_eq(name, a, b, "rs06") {
        Some(MotorModel::Rs06)
    } else {
        None
    }
}

/// The table of a model.
pub fn model_parameter_table(model: MotorModel) -> (table: Vec<ParameterInfo>)
    ensures
        table_view(table@) == model_table(model),
{
    parameter_table()
}

/// The table for a model name: that of the model it designates, or the
/// common table.
pub fn parameter_table_for_model(model: &str) -> (table: Vec<ParameterInfo>)
    ensures
        table_view(table@) == table_for_model(model@),
{
    match motor_model_from_name(model) {
        Some(m) => model_parameter_table(m),
        None => parameter_table(),
    }
}

/// The entry with the id `id` in the table for a model name, or else in the
/// common table.
pub fn parameter_info_for_model(model: &str, id: u16) -> (found: Option<ParameterInfo>)
    ensures
        found_view(found) == info_for_model(model@, id),
{
    let table = parameter_table_for_model(model);
    match find_parameter(&table, id) {
        Some(p) => Some(p),
        None => parameter_info(id),
    }
}

/// A table entry found for `id` carries the id `id`; none is found exactly
/// where no entry carries it.
pub proof fn lemma_lookup_matches(table: Seq<ParameterView>, id: u16)
    ensures
        lookup(table, id) matches Some(e) ==> e.0 == id && table.contains(e),
        lookup(table, id) is None <==> (forall|j: int| 0 <= j < table.len() ==> #[trigger] table[j].0 != id),
    decreases table.len(),
{
    if table.len() > 0 {
        lemma_lookup_matches(table.drop_first(), id);
        if table[0].0 != id {
            assert forall|j: int| 0 <= j < table.len() && (forall|m: int| 0 <= m < table.drop_first().len() ==> #[trigger] table.drop_first()[m].0 != id) implies #[trigger] table[j].0 != id by {
                if j > 0 {
                    assert(table[j] == table.drop_first()[j - 1]);
                }
            }
            if let Some(e) = lookup(table, id) {
                let m = choose|m: int| 0 <= m < table.drop_first().len() && table.drop_first()[m] == e;
                assert(table[m + 1] == e);
            }
        } else {
            assert(table[0] == table[0]);
        }
    }
}

/// The entry at position `k`, the first with its id, is what a lookup of that id finds.
proof fn lemma_lookup_first(table: Seq<ParameterView>, k: int)
    requires
        0 <= k < table.len(),
        forall|j: int| 0 <= j < k ==> #[trigger] table[j].0 != table[k].0,
    ensures
        lookup(table, table[k].0) == Some(table[k]),
    decreases k,
{
    if k > 0 {
        assert(table[0].0 != table[k].0);
        assert forall|j: int| 0 <= j < k - 1 implies #[trigger] table.drop_first()[j].0 != table.drop_first()[k - 1].0 by {
            assert(table[j + 1].0 != table[k].0);
        }
        lemma_lookup_first(table.drop_first(), k - 1);
    }
}

/// The ids of the common table grow strictly from one entry to the next.
proof fn lemma_common_ids_increase(i: int, j: int)
    requires
        0 <= i < j < common_table_len(),
    ensures
        common_entry(i).0 < common_entry(j).0,
    decreases j - i,
{
    if j - i > 1 {
        lemma_common_ids_increase(i, j - 1);
    }
}

/// The ids of the common table lie in `0x7005..=0x702E`.
proof fn lemma_common_ids_in_range(i: int)
    requires
        0 <= i < common_table_len(),
    ensures
        0x7005 <= common_entry(i).0 <= 0x702E,
{
    if i > 0 {
        lemma_common_ids_increase(0, i);
    }
    if i < 28 {
        lemma_common_ids_increase(i, 28);
    }
}

/// Each `ParameterId` is found in the common table under its own id.
pub proof fn lemma_parameter_id_in_common_table(p: ParameterId)
    ensures
        lookup(common_table(), p.id_value()) matches Some(e) && e.0 == p.id_value(),
{
    let k = position_of(p);
    assert(0 <= k < common_table_len() && common_table()[k].0 == p.id_value());
    assert forall|j: int| 0 <= j < k implies #[trigger] common_table()[j].0 != common_table()[k].0 by {
        lemma_common_ids_increase(j, k);
    }
    lemma_lookup_first(common_table(), k);
}

/// Each entry of the common table carries the id of a `ParameterId`.
pub proof fn lemma_common_entry_has_parameter_id(i: int)
    requires
        0 <= i < common_table_len(),
    ensures
        exists|q: ParameterId| #[trigger] q.id_value() == common_table()[i].0,
{
    assert(parameter_at(i).id_value() == common_table()[i].0);
}

/// No model name makes an id outside `0x7005..=0x702E` resolve: the
/// model-specific factory and diagnostic entries stay inactive.
pub proof fn lemma_only_runtime_ids_resolve(name: Seq<char>, id: u16)
    requires
        id < 0x7005 || id > 0x702E,
    ensures
        info_for_model(name, id) is None,
{
    assert forall|j: int| 0 <= j < common_table().len() implies #[trigger] common_table()[j].0 != id by {
        lemma_common_ids_in_range(j);
    }
    lemma_lookup_matches(common_table(), id);
}

/// Every parameter of the common table resolves, under its own id, for every
/// model name.
pub proof fn lemma_runtime_ids_resolve_for_every_model(name: Seq<char>, p: ParameterId)
    ensures
        info_for_model(name, p.id_value()) matches Some(e) && e.0 == p.id_value(),
{
    lemma_parameter_id_in_common_table(p);
}

/// Model names are matched without regard to ASCII case or to the white
/// space around them: a name selects what its trimmed, lower-cased form selects.
pub proof fn lemma_model_names_are_normalized(name: Seq<char>)
    ensures
        model_from_name(name) == model_from_name(ascii_lower(trim(name))),
        table_for_model(name) == table_for_model(ascii_lower(trim(name))),
{
    let t = trim(name);
    lemma_trim_ascii_lower_commute(t);
    lemma_trim_idempotent(name);
    lemma_ascii_lower_idempotent(t);
}

/// The RobStride protocol's single-parameter list for the runtime control
/// parameters: the name and the data type that each id has on the bus.
pub open spec fn protocol_parameter(id: u16) -> Option<(Seq<char>, ParameterDataType)> {
    match id {
        0x7005 => Some(("run_mode"@, ParameterDataType::Int8)),
        0x7006 => Some(("iq_ref"@, ParameterDataType::Float32)),
        0x700A => Some(("spd_ref"@, ParameterDataType::Float32)),
        0x700B => Some(("limit_torque"@, ParameterDataType::Float32)),
        0x7010 => Some(("cur_kp"@, ParameterDataType::Float32)),
        0x7011 => Some(("cur_ki"@, ParameterDataType::Float32)),
        0x7014 => Some(("cur_filter_gain"@, ParameterDataType::Float32)),
        0x7016 => Some(("loc_ref"@, ParameterDataType::Float32)),
        0x7017 => Some(("limit_spd"@, ParameterDataType::Float32)),
        0x7018 => Some(("limit_cur"@, ParameterDataType::Float32)),
        0x7019 => Some(("mechPos"@, ParameterDataType::Float32)),
        0x701A => Some(("iqf"@, ParameterDataType::Float32)),
        0x701B => Some(("mechVel"@, ParameterDataType::Float32)),
        0x701C => Some(("VBUS"@, ParameterDataType::Float32)),
        0x701E => Some(("loc_kp"@, ParameterDataType::Float32)),
        0x701F => Some(("spd_kp"@, ParameterDataType::Float32)),
        0x7020 => Some(("spd_ki"@, ParameterDataType::Float32)),
        0x7021 => Some(("spd_filter_gain"@, ParameterDataType::Float32)),
        0x7022 => Some(("acc_rad"@, ParameterDataType::Float32)),
        0x7024 => Some(("vel_max"@, ParameterDataType::Float32)),
        0x7025 => Some(("acc_set"@, ParameterDataType::Float32)),
        0x7026 => Some(("EPScan_time"@, ParameterDataType::UInt16)),
        0x7028 => Some(("canTimeout"@, ParameterDataType::UInt32)),
        0x7029 => Some(("zero_sta"@, ParameterDataType::UInt8)),
        0x702A => Some(("damper"@, ParameterDataType::UInt8)),
        0x702B => Some(("add_offset"@, ParameterDataType::Float32)),
        0x702C => Some(("alveolous_open"@, ParameterDataType::UInt8)),
        0x702D => Some(("iq_test"@, ParameterDataType::UInt8)),
        0x702E => Some(("dcc_set"@, ParameterDataType::Float32)),
        _ => None,
    }
}

/// The protocol's data type for a runtime control parameter: `run_mode` is a
/// signed byte, `EPScan_time` 16 bits, `canTimeout` 32 bits, the four flags
/// `zero_sta`, `damper`, `alveolous_open` and `iq_test` unsigned bytes, and
/// every other parameter a 32-bit float.
pub open spec fn protocol_data_type(id: u16) -> ParameterDataType {
    if id == 0x7005 {
        ParameterDataType::Int8
    } else if id == 0x7026 {
        ParameterDataType::UInt16
    } else if id == 0x7028 {
        ParameterDataType::UInt32
    } else if id == 0x7029 || id == 0x702A || id == 0x702C || id == 0x702D {
        ParameterDataType::UInt8
    } else {
        ParameterDataType::Float32
    }
}

/// The protocol's bus id and name of each named parameter.
pub open spec fn protocol_id_and_name(p: ParameterId) -> (u16, Seq<char>) {
    match p {
        ParameterId::Mode => (0x7005, "run_mode"@),
        ParameterId::IqTarget => (0x7006, "iq_ref"@),
        ParameterId::VelocityTarget => (0x700A, "spd_ref"@),
        ParameterId::TorqueLimit => (0x700B, "limit_torque"@),
        ParameterId::CurrentKp => (0x7010, "cur_kp"@),
        ParameterId::CurrentKi => (0x7011, "cur_ki"@),
        ParameterId::CurrentFilterGain => (0x7014, "cur_filter_gain"@),
        ParameterId::PositionTarget => (0x7016, "loc_ref"@),
        ParameterId::VelocityLimit => (0x7017, "limit_spd"@),
        ParameterId::CurrentLimit => (0x7018, "limit_cur"@),
        ParameterId::MechanicalPosition => (0x7019, "mechPos"@),
        ParameterId::IqFiltered => (0x701A, "iqf"@),
        ParameterId::MechanicalVelocity => (0x701B, "mechVel"@),
        ParameterId::Vbus => (0x701C, "VBUS"@),
        ParameterId::PositionKp => (0x701E, "loc_kp"@),
        ParameterId::VelocityKp => (0x701F, "spd_kp"@),
        ParameterId::VelocityKi => (0x7020, "spd_ki"@),
        ParameterId::VelocityFilterGain => (0x7021, "spd_filter_gain"@),
        ParameterId::VelocityAccelerationTarget => (0x7022, "acc_rad"@),
        ParameterId::PpVelocityMax => (0x7024, "vel_max"@),
        ParameterId::PpAccelerationTarget => (0x7025, "acc_set"@),
        ParameterId::EpscanTime => (0x7026, "EPScan_time"@),
        ParameterId::CanTimeout => (0x7028, "canTimeout"@),
        ParameterId::ZeroState => (0x7029, "zero_sta"@),
        ParameterId::Damper => (0x702A, "damper"@),
        ParameterId::AddOffset => (0x702B, "add_offset"@),
        ParameterId::AlveolousOpen => (0x702C, "alveolous_open"@),
        ParameterId::IqTest => (0x702D, "iq_test"@),
        ParameterId::DccSet => (0x702E, "dcc_set"@),
    }
}

/// The position in the common table of a protocol id.
spec fn protocol_position(id: u16) -> int {
    match id {
        0x7005 => 0,
        0x7006 => 1,
        0x700A => 2,
        0x700B => 3,
        0x7010 => 4,
        0x7011 => 5,
        0x7014 => 6,
        0x7016 => 7,
        0x7017 => 8,
        0x7018 => 9,
        0x7019 => 10,
        0x701A => 11,
        0x701B => 12,
        0x701C => 13,
        0x701E => 14,
        0x701F => 15,
        0x7020 => 16,
        0x7021 => 17,
        0x7022 => 18,
        0x7024 => 19,
        0x7025 => 20,
        0x7026 => 21,
        0x7028 => 22,
        0x7029 => 23,
        0x702A => 24,
        0x702B => 25,
        0x702C => 26,
        0x702D => 27,
        0x702E => 28,
        _ => -1,
    }
}

/// Looking an id up in the common table gives exactly what the protocol's
/// parameter list says of it: its name and data type where the list has the
/// id, nothing where it has not.
pub proof fn lemma_common_table_follows_protocol(id: u16)
    ensures
        lookup(common_table(), id) == (match protocol_parameter(id) {
            Some((name, ty)) => Some((id, name, ty)),
            None => None::<ParameterView>,
        }),
{
    if protocol_parameter(id) is Some {
        let k = protocol_position(id);
        assert(0 <= k < common_table_len());
        assert(common_table()[k].0 == id);
        assert forall|j: int| 0 <= j < k implies #[trigger] common_table()[j].0 != common_table()[k].0 by {
            lemma_common_ids_increase(j, k);
        }
        lemma_lookup_first(common_table(), k);
    } else {
        assert forall|j: int| 0 <= j < common_table().len() implies #[trigger] common_table()[j].0 != id by {
            assert(common_table()[j] == common_entry(j));
        }
        lemma_lookup_matches(common_table(), id);
    }
}

/// Each entry of the common table has the protocol's data type for its id.
pub proof fn lemma_common_data_types(id: u16)
    ensures
        lookup(common_table(), id) matches Some(e) ==> e.2 == protocol_data_type(id),
{
    lemma_common_table_follows_protocol(id);
}

/// Each named parameter has the protocol's bus id, and the common table holds
/// it under that id with the protocol's name and data type.
pub proof fn lemma_parameter_ids_follow_protocol(p: ParameterId)
    ensures
        p.id_value() == protocol_id_and_name(p).0,
        lookup(common_table(), p.id_value()) == Some::<ParameterView>((
            protocol_id_and_name(p).0,
            protocol_id_and_name(p).1,
            protocol_data_type(protocol_id_and_name(p).0),
        )),
{
    lemma_common_table_follows_protocol(p.id_value());
}

/// The common table's ids are exactly the ids of the named parameters.
pub proof fn lemma_common_ids_are_parameter_ids(id: u16)
    ensures
        lookup(common_table(), id) is Some <==> exists|p: ParameterId| #[trigger] p.id_value() == id,
{
    lemma_common_table_follows_protocol(id);
    if lookup(common_table(), id) is Some {
        let k = protocol_position(id);
        assert(parameter_at(k).id_value() == id);
    } else {
        assert forall|p: ParameterId| #[trigger] p.id_value() != id by {
            lemma_parameter_ids_follow_protocol(p);
        }
    }
}

/// Every model's own table, before any fallback to the common table,
/// answers each id as the common table does: it holds every runtime control
/// parameter under its id, with its name and data type.
pub proof fn lemma_model_tables_hold_runtime_parameters(name: Seq<char>, id: u16, p: ParameterId)
    ensures
        lookup(table_for_model(name), id) == lookup(common_table(), id),
        lookup(table_for_model(name), p.id_value()) matches Some(e) && e.0 == p.id_value(),
        forall|m: MotorModel| #[trigger] lookup(model_table(m), id) == lookup(common_table(), id),
{
    lemma_parameter_ids_follow_protocol(p);
    lemma_common_table_follows_protocol(p.id_value());
}

/// The two names of each model, without white space around them, in lower case.
pub open spec fn model_names(model: MotorModel) -> (Seq<char>, Seq<char>) {
    match model {
        MotorModel::Rs00 => ("rs-00"@, "rs00"@),
        MotorModel::Rs01 => ("rs-01"@, "rs01"@),
        MotorModel::Rs02 => ("rs-02"@, "rs02"@),
        MotorModel::Rs03 => ("rs-03"@, "rs03"@),
        MotorModel::Rs04 => ("rs-04"@, "rs04"@),
        MotorModel::Rs05 => ("rs-05"@, "rs05"@),
        MotorModel::Rs06 => ("rs-06"@, "rs06"@),
    }
}

/// A name designates a model exactly when, trimmed and taken to ASCII lower
/// case, it is one of that model's two names.
pub proof fn lemma_model_names_designate_models(name: Seq<char>, model: MotorModel)
    ensures
        model_from_name(name) == Some(model) <==> (ascii_lower(trim(name)) == model_names(model).0
            || ascii_lower(trim(name)) == model_names(model).1),
{
    reveal_strlit("rs-00");
    reveal_strlit("rs00");
    reveal_strlit("rs-01");
    reveal_strlit("rs01");
    reveal_strlit("rs-02");
    reveal_strlit("rs02");
    reveal_strlit("rs-03");
    reveal_strlit("rs03");
    reveal_strlit("rs-04");
    reveal_strlit("rs04");
    reveal_strlit("rs-05");
    reveal_strlit("rs05");
    reveal_strlit("rs-06");
    reveal_strlit("rs06");
    assert("rs-00"@.len() == 5 && "rs-00"@[4] == '0');
    assert("rs00"@.len() == 4 && "rs00"@[3] == '0');
    assert("rs-01"@.len() == 5 && "rs-01"@[4] == '1');
    assert("rs01"@.len() == 4 && "rs01"@[3] == '1');
    assert("rs-02"@.len() == 5 && "rs-02"@[4] == '2');
    assert("rs02"@.len() == 4 && "rs02"@[3] == '2');
    assert("rs-03"@.len() == 5 && "rs-03"@[4] == '3');
    assert("rs03"@.len() == 4 && "rs03"@[3] == '3');
    assert("rs-04"@.len() == 5 && "rs-04"@[4] == '4');
    assert("rs04"@.len() == 4 && "rs04"@[3] == '4');
    assert("rs-05"@.len() == 5 && "rs-05"@[4] == '5');
    assert("rs05"@.len() == 4 && "rs05"@[3] == '5');
    assert("rs-06"@.len() == 5 && "rs-06"@[4] == '6');
    assert("rs06"@.len() == 4 && "rs06"@[3] == '6');
}

} // verus!

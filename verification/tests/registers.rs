use robstride::registers::{
    motor_model_from_name, parameter_info, parameter_info_for_model, parameter_table,
    parameter_table_for_model, MotorModel, ParameterDataType, ParameterId,
};

const MODELS: [&str; 7] = ["rs-00", "rs-01", "rs-02", "rs-03", "rs-04", "rs-05", "rs-06"];

#[test]
fn model_tables_keep_only_runtime_control_parameters_active() {
    for model in MODELS {
        assert!(
            parameter_info_for_model(model, 0x2005).is_none(),
            "{model} 0x2005 should stay comment-only"
        );
        assert!(
            parameter_info_for_model(model, 0x3004).is_none(),
            "{model} 0x3004 should stay comment-only"
        );
        assert!(
            parameter_info_for_model(model, 0x302C).is_none(),
            "{model} 0x302C should stay comment-only"
        );
    }
}

#[test]
fn unknown_model_keeps_only_common_control_parameters() {
    assert!(parameter_info_for_model("rs-99", 0x2005).is_none());
    assert!(parameter_info_for_model("rs-99", 0x3004).is_none());
    assert_eq!(
        parameter_info_for_model("rs-99", 0x7019)
            .expect("common mechPos")
            .data_type,
        ParameterDataType::Float32
    );
}

#[test]
fn model_tables_still_resolve_runtime_parameters() {
    for model in MODELS {
        let mode = parameter_info_for_model(model, 0x7005).expect("run_mode");
        assert_eq!(mode.name, "run_mode");
        assert_eq!(mode.data_type, ParameterDataType::Int8);

        let pos = parameter_info_for_model(model, 0x7019).expect("mechPos");
        assert_eq!(pos.name, "mechPos");
        assert_eq!(pos.data_type, ParameterDataType::Float32);

        let dcc = parameter_info_for_model(model, 0x702E).expect("dcc_set");
        assert_eq!(dcc.name, "dcc_set");
        assert_eq!(dcc.data_type, ParameterDataType::Float32);
    }
}

#[test]
fn common_table_has_all_runtime_entries_in_order() {
    let table = parameter_table();
    assert_eq!(table.len(), 29);
    assert_eq!(table[0].id, 0x7005);
    assert_eq!(table[28].id, 0x702E);
    for pair in table.windows(2) {
        assert!(pair[0].id < pair[1].id);
    }
    let timeout = parameter_info(0x7028).expect("canTimeout");
    assert_eq!(timeout.name, "canTimeout");
    assert_eq!(timeout.data_type, ParameterDataType::UInt32);
    let scan = parameter_info(0x7026).expect("EPScan_time");
    assert_eq!(scan.data_type, ParameterDataType::UInt16);
    let zero = parameter_info(0x7029).expect("zero_sta");
    assert_eq!(zero.data_type, ParameterDataType::UInt8);
}

#[test]
fn ids_between_table_entries_are_not_found() {
    assert!(parameter_info(0x7007).is_none());
    assert!(parameter_info(0x7027).is_none());
    assert!(parameter_info(0x7004).is_none());
    assert!(parameter_info(0x702F).is_none());
    assert!(parameter_info(0).is_none());
    assert!(parameter_info(0xFFFF).is_none());
}

#[test]
fn every_parameter_id_resolves_in_every_model() {
    let ids = [
        ParameterId::Mode,
        ParameterId::IqTarget,
        ParameterId::VelocityTarget,
        ParameterId::TorqueLimit,
        ParameterId::CurrentKp,
        ParameterId::CurrentKi,
        ParameterId::CurrentFilterGain,
        ParameterId::PositionTarget,
        ParameterId::VelocityLimit,
        ParameterId::CurrentLimit,
        ParameterId::MechanicalPosition,
        ParameterId::IqFiltered,
        ParameterId::MechanicalVelocity,
        ParameterId::Vbus,
        ParameterId::PositionKp,
        ParameterId::VelocityKp,
        ParameterId::VelocityKi,
        ParameterId::VelocityFilterGain,
        ParameterId::VelocityAccelerationTarget,
        ParameterId::PpVelocityMax,
        ParameterId::PpAccelerationTarget,
        ParameterId::EpscanTime,
        ParameterId::CanTimeout,
        ParameterId::ZeroState,
        ParameterId::Damper,
        ParameterId::AddOffset,
        ParameterId::AlveolousOpen,
        ParameterId::IqTest,
        ParameterId::DccSet,
    ];
    for model in ["rs-00", "RS06", "unknown", ""] {
        for p in ids {
            let found = parameter_info_for_model(model, p.as_u16()).expect("runtime parameter");
            assert_eq!(found.id, p.as_u16());
        }
    }
    assert_eq!(ParameterId::Mode.as_u16(), 0x7005);
    assert_eq!(ParameterId::MechanicalPosition.as_u16(), 0x7019);
    assert_eq!(ParameterId::DccSet.as_u16(), 0x702E);
}

#[test]
fn model_names_ignore_case_and_surrounding_space() {
    assert_eq!(motor_model_from_name("rs-00"), Some(MotorModel::Rs00));
    assert_eq!(motor_model_from_name("rs00"), Some(MotorModel::Rs00));
    assert_eq!(motor_model_from_name("  RS-03\t"), Some(MotorModel::Rs03));
    assert_eq!(motor_model_from_name("Rs06\n"), Some(MotorModel::Rs06));
    assert_eq!(motor_model_from_name("\u{3000}rs-05\u{a0}"), Some(MotorModel::Rs05));
    assert_eq!(motor_model_from_name("rs-07"), None);
    assert_eq!(motor_model_from_name("rs 00"), None);
    assert_eq!(motor_model_from_name("rs-0"), None);
    assert_eq!(motor_model_from_name(""), None);
}

#[test]
fn unknown_model_selects_the_common_table() {
    let common = parameter_table();
    let unknown = parameter_table_for_model("rs-99");
    assert_eq!(unknown.len(), common.len());
    let rs02 = parameter_table_for_model(" RS02 ");
    assert_eq!(rs02.len(), 29);
    assert_eq!(rs02[10].name, "mechPos");
}

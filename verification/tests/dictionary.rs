use std::collections::HashMap;

use cia402_node::eds::{DataValue, EDSData, Variable};

#[test]
fn objects_are_found_by_index_and_subindex() {
    let mut vars = HashMap::new();
    vars.insert(2, Variable { value: DataValue::Unsigned16(7) });
    let mut od = HashMap::new();
    od.insert(0x2000, vars);
    let eds_data = EDSData { od };
    assert_eq!(eds_data.get(0x2000, 2), Some(&DataValue::Unsigned16(7)));
    assert_eq!(eds_data.get(0x2000, 1), None);
    assert_eq!(eds_data.get(0x2001, 2), None);
}

#[test]
fn writing_changes_one_object() {
    let mut eds_data = EDSData { od: HashMap::new() };
    let vars = eds_data.od.entry(0x2000).or_default();
    vars.insert(1, Variable { value: DataValue::Unsigned8(1) });
    vars.insert(2, Variable { value: DataValue::Integer32(-5) });
    *eds_data.get_mut(0x2000, 1).unwrap() = DataValue::Unsigned8(9);
    assert!(eds_data.get_mut(0x2000, 3).is_none());
    assert!(eds_data.get_mut(0x1FFF, 1).is_none());
    assert_eq!(eds_data.get(0x2000, 1), Some(&DataValue::Unsigned8(9)));
    assert_eq!(eds_data.get(0x2000, 2), Some(&DataValue::Integer32(-5)));
    assert_eq!(eds_data.od.len(), 1);
    assert_eq!(eds_data.od[&0x2000].len(), 2);
}

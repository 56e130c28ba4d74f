//! The layout of the dashboard's table of radar targets.
use vstd::prelude::*;

verus! {

/// The titles of the radar table's columns, left to right.
pub open spec fn radar_column_titles() -> Seq<Seq<char>> {
    seq!["Angle"@, "Distance"@, "Direction"@, "Speed"@, "SNR"@]
}

/// The titles of the radar table's columns, left to right: angle, distance,
/// direction, speed and signal-to-noise ratio of each target.
pub fn radar_table_columns() -> (titles: Vec<String>)
    ensures
        titles@.map_values(|t: String| t@) == radar_column_titles(),
{
    let titles: Vec<String> = vec![
        "Angle".to_owned(),
        "Distance".to_owned(),
        "Direction".to_owned(),
        "Speed".to_owned(),
        "SNR".to_owned(),
    ];
    assert(titles@.map_values(|t: String| t@) =~= radar_column_titles());
    titles
}

} // verus!

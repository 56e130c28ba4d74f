use shared::radar_table::radar_table_columns;
use shared::{ESP_IP, SERVER_IP, SERVER_WS_IMAGE_STREAM_DIR, SERVER_WS_TEST_DATA_DIR};

#[test]
fn radar_columns_in_order() {
    assert_eq!(radar_table_columns(), vec!["Angle", "Distance", "Direction", "Speed", "SNR"]);
}

#[test]
fn addresses_and_directories() {
    assert_eq!(ESP_IP, "192.168.4.1");
    assert_eq!(SERVER_IP, "127.0.0.1");
    assert_eq!(SERVER_WS_TEST_DATA_DIR, "test_data");
    assert_eq!(SERVER_WS_IMAGE_STREAM_DIR, "image_stream");
}

//! Logic shared by the radar dashboard's web server and browser client:
//! decoding of NUL-terminated strings, the endpoint addresses of the sensor
//! board, the mapping of request paths onto embedded web assets, and the
//! throttle that keeps at most one camera frame in decoding at a time.
use vstd::prelude::*;

pub mod cstr;
pub mod embedded;
pub mod frame_throttle;
pub mod radar_table;

verus! {

/// Address of the sensor board on its own access-point network.
pub const ESP_IP: &'static str = "192.168.4.1";

/// Address the dashboard's web server binds to.
pub const SERVER_IP: &'static str = "127.0.0.1";

/// Directory name for recorded test data.
pub const SERVER_WS_TEST_DATA_DIR: &'static str = "test_data";

/// Directory name for the recorded image stream.
pub const SERVER_WS_IMAGE_STREAM_DIR: &'static str = "image_stream";

} // verus!

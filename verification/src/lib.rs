//! Verified core of a CO2 monitoring station: the sensor mote's register
//! protocol for the CCS811 air-quality sensor, the HTTP request it posts its
//! readings with, and the server's conversion of a reading into an InfluxDB
//! data point.
pub mod text;
pub mod http;
pub mod sensor;
pub mod data;

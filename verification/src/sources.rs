pub mod binaryedge;

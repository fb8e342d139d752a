//! Inventory of VMware vCenter servers: the XML tree that vim25 answers are
//! read into, the SOAP request and response handling around it, connection
//! settings, and the sheets that turn managed objects into table rows.

pub mod text;
pub mod vcenter;
pub mod data;
pub mod export;
pub mod report;
pub mod command;

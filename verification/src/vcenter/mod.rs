//! Talking to vCenter: the XML that vim25 answers in, the SOAP calls, the
//! connection settings and the credential names.

pub mod config;
pub mod secrets;
pub mod session;
pub mod soap;
pub mod xml;
pub mod xml_read;

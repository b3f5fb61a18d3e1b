pub mod error;
pub mod hresult;
pub mod marshal;
pub mod locate;
pub mod host;

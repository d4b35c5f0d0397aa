pub mod deposit;
pub mod init;
pub mod swap;
pub mod withdraw;

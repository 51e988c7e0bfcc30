pub mod syscall;

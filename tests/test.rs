use qx_rs_err::err::Error;

#[test]
fn test() {
    println!("{}", Error::message("User Not Found").to_string());
    println!("{}", Error::code_message("NOT_FOUND", "User Not Found").to_string());

    println!("{}", Error::message("Something Went Wrong").ext("xxx").to_string());

    let some_error = std::io::Error::new(std::io::ErrorKind::AddrInUse, "xxx");
    println!("{}", Error::error(Box::new(some_error), "tests/test.rs", 13, 20).to_string());

    println!("{}", Error::error_code_info("001", "failed", "tests/test.rs", 15, 20).to_string());
}

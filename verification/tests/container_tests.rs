use lccc::abivec::AbiVec;
use lccc::driver::{library_file_name, LibraryNaming, LinkOutput, Mode};
use lccc::ops::{ControlFlow, FromResidual, Try};

#[test]
fn test_control_flow() -> Result<(), ()> {
    let res: Result<i32, ()> = Ok(1);
    let val = match Try::branch(res) {
        ControlFlow::Continue(v) => v,
        ControlFlow::Break(residual) => return FromResidual::from_residual(residual),
    };
    assert_eq!(val, 1);
    Ok(())
}

#[test]
fn branch_of_an_error_breaks_with_it() {
    let res: Result<i32, u8> = Err(7);
    match Try::branch(res) {
        ControlFlow::Continue(_) => panic!("an error must break"),
        ControlFlow::Break(residual) => {
            let rebuilt: Result<i32, u8> = FromResidual::from_residual(residual);
            assert_eq!(rebuilt.unwrap_err(), 7);
        }
    }
}

#[test]
fn from_output_wraps_the_value() {
    let r: Result<i32, ()> = Try::from_output(5);
    assert_eq!(r.unwrap(), 5);
}

#[test]
fn test_vec_new() {
    let vec = AbiVec::<u32>::new();

    assert_eq!(vec.len(), 0);
}

#[test]
fn test_vec_empty() {
    let vec: AbiVec<u32> = AbiVec::new();
    assert_eq!(vec.len(), 0);
}

#[test]
fn test_vec_with_data() {
    let mut vec: AbiVec<u32> = AbiVec::new();
    vec.extend_from_slice(&[314, 159, 265]);
    assert_eq!(vec.len(), 3);
    assert_eq!(*vec.get(0).unwrap(), 314);
    assert_eq!(*vec.get(1).unwrap(), 159);
    assert_eq!(*vec.get(2).unwrap(), 265);
}

#[test]
fn test_vec_with_len() {
    let mut vec: AbiVec<u32> = AbiVec::new();
    for _ in 0..7 {
        vec.push(42);
    }
    assert_eq!(vec.len(), 7);
    assert_eq!(*vec.get(0).unwrap(), 42);
    assert_eq!(*vec.get(1).unwrap(), 42);
    assert_eq!(*vec.get(5).unwrap(), 42);
}

#[test]
fn capacity_rounds_up_to_powers_of_two() {
    let vec = AbiVec::<u32>::with_capacity(5);
    assert_eq!(vec.capacity(), 8);
    let vec = AbiVec::<u32>::with_capacity(8);
    assert_eq!(vec.capacity(), 8);
    let vec = AbiVec::<u32>::with_capacity(0);
    assert_eq!(vec.capacity(), 0);
}

#[test]
fn push_doubles_the_capacity_on_demand() {
    let mut vec: AbiVec<u32> = AbiVec::new();
    vec.push(1);
    assert_eq!(vec.capacity(), 1);
    vec.push(2);
    assert_eq!(vec.capacity(), 2);
    vec.push(3);
    assert_eq!(vec.capacity(), 4);
    vec.push(4);
    vec.push(5);
    assert_eq!(vec.capacity(), 8);
}

#[test]
fn pop_returns_the_last_element() {
    let mut vec: AbiVec<u32> = AbiVec::new();
    vec.push(10);
    vec.push(20);
    assert_eq!(vec.pop(), Some(20));
    assert_eq!(vec.pop(), Some(10));
    assert_eq!(vec.pop(), None);
}

#[test]
fn reserve_makes_room_without_changing_contents() {
    let mut vec: AbiVec<u32> = AbiVec::new();
    vec.push(9);
    vec.reserve(10);
    assert!(vec.capacity() >= 11);
    assert_eq!(vec.len(), 1);
    assert_eq!(*vec.get(0).unwrap(), 9);
}

#[test]
fn plugin_library_names_follow_the_platform() {
    assert_eq!(
        library_file_name("frontend", "c", LibraryNaming::Linux),
        "libfrontend_c.so"
    );
    assert_eq!(
        library_file_name("codegen", "x86", LibraryNaming::Windows),
        "codegen_x86.dll"
    );
    assert_eq!(
        library_file_name("frontend", "c", LibraryNaming::MacOs),
        "libfrontend_c.dylib"
    );
}

#[test]
fn driver_modes_order_by_how_far_they_go() {
    assert!(Mode::TypeCheck < Mode::Link);
    assert!(Mode::Asm < Mode::CompileOnly);
    assert_eq!(LinkOutput::Executable, LinkOutput::Executable);
}

use rosenpass_core::secret_alloc::get_or_init_secret_alloc_type;
use rosenpass_core::secret_alloc::secret_box;
use rosenpass_core::secret_alloc::secret_box_try;
use rosenpass_core::secret_alloc::secret_vec;
use rosenpass_core::secret_alloc::set_secret_alloc_type;
use rosenpass_core::secret_alloc::PolicyError;
use rosenpass_core::secret_alloc::SecretAllocCell;
use rosenpass_core::secret_alloc::SecretAllocType;

#[test]
fn install_then_reinstall_is_refused() {
    let mut cell = SecretAllocCell::new(true);
    assert_eq!(
        set_secret_alloc_type(&mut cell, SecretAllocType::MemsecMalloc),
        Ok(())
    );
    assert_eq!(
        set_secret_alloc_type(&mut cell, SecretAllocType::MemsecMalloc),
        Err(PolicyError::AlreadyInstalled)
    );
    assert_eq!(cell.get(), Some(SecretAllocType::MemsecMalloc));
}

#[test]
fn selector_keeps_the_first_installed_value() {
    let mut cell = SecretAllocCell::new(true);
    assert!(set_secret_alloc_type(&mut cell, SecretAllocType::MemsecMemfdSec).is_ok());
    assert_eq!(
        set_secret_alloc_type(&mut cell, SecretAllocType::MemsecMalloc),
        Err(PolicyError::AlreadyInstalled)
    );
    assert_eq!(cell.get(), Some(SecretAllocType::MemsecMemfdSec));
}

#[test]
fn memfd_is_refused_where_unsupported() {
    let mut cell = SecretAllocCell::new(false);
    assert_eq!(
        set_secret_alloc_type(&mut cell, SecretAllocType::MemsecMemfdSec),
        Err(PolicyError::UnsupportedHere)
    );
    assert_eq!(cell.get(), None);
}

#[test]
fn probe_is_idempotent() {
    let mut cell = SecretAllocCell::new(true);
    let first = get_or_init_secret_alloc_type(&mut cell, SecretAllocType::MemsecMalloc);
    assert_eq!(first, SecretAllocType::MemsecMalloc);
    assert_eq!(
        get_or_init_secret_alloc_type(&mut cell, SecretAllocType::MemsecMemfdSec),
        first
    );
    assert_eq!(
        get_or_init_secret_alloc_type(&mut cell, SecretAllocType::MemsecMalloc),
        first
    );
    assert_eq!(cell.get(), Some(first));
}

#[test]
fn probe_reports_a_previously_installed_value() {
    let mut cell = SecretAllocCell::new(true);
    set_secret_alloc_type(&mut cell, SecretAllocType::MemsecMemfdSec).unwrap();
    assert_eq!(
        get_or_init_secret_alloc_type(&mut cell, SecretAllocType::MemsecMalloc),
        SecretAllocType::MemsecMemfdSec
    );
}

#[test]
fn containers_route_through_the_installed_policy() {
    let mut cell = SecretAllocCell::new(true);
    set_secret_alloc_type(&mut cell, SecretAllocType::MemsecMemfdSec).unwrap();

    let boxed = secret_box(&cell, 41u64);
    assert_eq!(boxed.alloc_type(), SecretAllocType::MemsecMemfdSec);
    assert_eq!(*boxed.get(), 41);
    assert_eq!(boxed.into_inner(), 41);

    let tried = secret_box_try(&cell, String::from("key material")).unwrap();
    assert_eq!(tried.alloc_type(), SecretAllocType::MemsecMemfdSec);
    assert_eq!(tried.into_inner(), "key material");

    let mut buffer = secret_vec::<u8>(&cell);
    assert_eq!(buffer.alloc_type(), SecretAllocType::MemsecMemfdSec);
    assert_eq!(buffer.len(), 0);
    buffer.push(7);
    buffer.push(9);
    assert_eq!(buffer.len(), 2);
    assert_eq!(*buffer.get(1), 9);
    assert_eq!(buffer.pop(), Some(9));
    assert_eq!(buffer.pop(), Some(7));
    assert_eq!(buffer.pop(), None);
}

#[test]
fn containers_under_the_default_policy() {
    let mut cell = SecretAllocCell::new(false);
    set_secret_alloc_type(&mut cell, SecretAllocType::MemsecMalloc).unwrap();
    let boxed = secret_box(&cell, [0u8; 32]);
    assert_eq!(boxed.alloc_type(), SecretAllocType::MemsecMalloc);
    assert_eq!(*boxed.get(), [0u8; 32]);
}

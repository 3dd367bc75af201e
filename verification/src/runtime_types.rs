//! Types of the GPU runtime and of the kernel standard library that the
//! configuration logic carries or compares but never looks inside.
use vstd::prelude::*;

verus! {

/// How an element is stored on the device (scalar, packed, atomic).
#[verifier::external_type_specification]
#[verifier::external_body]
pub struct ExStorageType(cubecl::ir::StorageType);

/// Properties and features of a device.
#[verifier::external_type_specification]
#[verifier::external_body]
pub struct ExDeviceProperties(cubecl::ir::DeviceProperties);

/// How an MMA tile loads its operands and stores its results.
#[verifier::external_type_specification]
#[verifier::external_body]
pub struct ExMmaIOConfig(cubek_std::tile::MmaIOConfig);

/// Swizzling of the stage memory of each operand.
#[verifier::external_type_specification]
#[verifier::external_body]
pub struct ExSwizzleModes(cubek_std::SwizzleModes);

/// `==` on storage types. `StorageType` derives `PartialEq`, so two storage
/// types are equal exactly when they are the same value.
#[verifier::external_body]
pub(crate) fn storage_type_eq(a: &cubecl::ir::StorageType, b: &cubecl::ir::StorageType) -> (r: bool)
    ensures
        r == (*a == *b),
{
    *a == *b
}

/// What `<` on storage types (their derived `PartialOrd`) gives for `a` and `b`.
pub uninterp spec fn storage_type_less(a: cubecl::ir::StorageType, b: cubecl::ir::StorageType) -> bool;

/// `<` on storage types, as `StorageType` derives it: by variant, then by the
/// variant's fields in order. Its result is `storage_type_less` of the two.
#[verifier::external_body]
pub(crate) fn storage_type_lt(a: &cubecl::ir::StorageType, b: &cubecl::ir::StorageType) -> (r: bool)
    ensures
        r == storage_type_less(*a, *b),
{
    *a < *b
}

/// What `MmaIOConfig::new` returns for a device and the stage types of the lhs,
/// rhs and accumulator. It reads nothing but these: for each operand it picks
/// the device's matrix load (and, for the accumulator, store) instruction when the
/// type is not packed and the device lists it, and manual loads and stores
/// otherwise.
pub uninterp spec fn mma_io_config_of(
    device_props: cubecl::ir::DeviceProperties,
    lhs_stage: cubecl::ir::StorageType,
    rhs_stage: cubecl::ir::StorageType,
    acc_stage: cubecl::ir::StorageType,
) -> cubek_std::tile::MmaIOConfig;

/// `MmaIOConfig::new`: its result is `mma_io_config_of` of the same device and
/// stage types. Which methods that picks is not stated here.
#[verifier::external_body]
pub(crate) fn mma_io_config_new(
    device_props: &cubecl::ir::DeviceProperties,
    lhs_stage: cubecl::ir::StorageType,
    rhs_stage: cubecl::ir::StorageType,
    acc_stage: cubecl::ir::StorageType,
) -> (r: cubek_std::tile::MmaIOConfig)
    ensures
        r == mma_io_config_of(*device_props, lhs_stage, rhs_stage, acc_stage),
{
    cubek_std::tile::MmaIOConfig::new(device_props, lhs_stage, rhs_stage, acc_stage)
}

} // verus!

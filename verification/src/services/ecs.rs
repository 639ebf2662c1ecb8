//! Compute service operations (endpoint `ecs.aliyuncs.com`).

use vstd::prelude::*;
use vstd::utf8::encode_utf8;

use crate::params::{utf8_bytes, ParamMap};
use crate::services::{
    base_params, base_params_map, bool_text, bool_value, dec_rep, ids_list, instance_ids_value,
    u32_decimal,
};

verus! {

/// The compute service's API version.
pub open spec fn ecs_version() -> Seq<char> {
    "2014-05-26"@
}

/// Parameters of `DescribeRegions`: lists the available regions,
/// optionally filtered to one.
pub fn describe_regions(region_id: Option<&str>) -> (r: ParamMap)
    ensures
        r.wf(),
        r@ == match region_id {
            Some(rid) => base_params_map("DescribeRegions"@, ecs_version()).insert(
                encode_utf8("RegionId"@),
                encode_utf8(rid@),
            ),
            None => base_params_map("DescribeRegions"@, ecs_version()),
        },
{
    let mut p = base_params("DescribeRegions", "2014-05-26");
    if let Some(rid) = region_id {
        p.insert(utf8_bytes("RegionId"), utf8_bytes(rid));
    }
    p
}

/// Parameters of `DescribeZones`: lists the zones of a region.
pub fn describe_zones(region_id: &str) -> (r: ParamMap)
    ensures
        r.wf(),
        r@ == base_params_map("DescribeZones"@, ecs_version()).insert(
            encode_utf8("RegionId"@),
            encode_utf8(region_id@),
        ),
{
    let mut p = base_params("DescribeZones", "2014-05-26");
    p.insert(utf8_bytes("RegionId"), utf8_bytes(region_id));
    p
}

/// Parameters of `DescribeAvailableResource`: queries the resource
/// inventory of a zone.
pub fn describe_available_resource(region_id: &str, zone_id: &str) -> (r: ParamMap)
    ensures
        r.wf(),
        r@ == base_params_map("DescribeAvailableResource"@, ecs_version()).insert(
            encode_utf8("RegionId"@),
            encode_utf8(region_id@),
        ).insert(encode_utf8("ZoneId"@), encode_utf8(zone_id@)),
{
    let mut p = base_params("DescribeAvailableResource", "2014-05-26");
    p.insert(utf8_bytes("RegionId"), utf8_bytes(region_id));
    p.insert(utf8_bytes("ZoneId"), utf8_bytes(zone_id));
    p
}

/// Parameters of `DescribeAccountAttributes`: queries the account's
/// compute quotas.
pub fn describe_account_attributes() -> (r: ParamMap)
    ensures
        r.wf(),
        r@ == base_params_map("DescribeAccountAttributes"@, ecs_version()),
{
    base_params("DescribeAccountAttributes", "2014-05-26")
}

/// Parameters of `DescribeResourcesModification`: queries the instance
/// type changes available in a zone.
pub fn describe_resources_modification(region_id: &str, zone_id: &str) -> (r: ParamMap)
    ensures
        r.wf(),
        r@ == base_params_map("DescribeResourcesModification"@, ecs_version()).insert(
            encode_utf8("RegionId"@),
            encode_utf8(region_id@),
        ).insert(encode_utf8("ZoneId"@), encode_utf8(zone_id@)),
{
    let mut p = base_params("DescribeResourcesModification", "2014-05-26");
    p.insert(utf8_bytes("RegionId"), utf8_bytes(region_id));
    p.insert(utf8_bytes("ZoneId"), utf8_bytes(zone_id));
    p
}

/// Parameters of `DescribeRecommendInstanceType`: queries recommended
/// instance types in a region.
pub fn describe_recommend_instance_type(region_id: &str) -> (r: ParamMap)
    ensures
        r.wf(),
        r@ == base_params_map("DescribeRecommendInstanceType"@, ecs_version()).insert(
            encode_utf8("RegionId"@),
            encode_utf8(region_id@),
        ),
{
    let mut p = base_params("DescribeRecommendInstanceType", "2014-05-26");
    p.insert(utf8_bytes("RegionId"), utf8_bytes(region_id));
    p
}

/// Parameters of `RunInstances`: creates instances from an image.
pub fn run_instances(region_id: &str, image_id: &str, instance_type: &str) -> (r: ParamMap)
    ensures
        r.wf(),
        r@ == base_params_map("RunInstances"@, ecs_version()).insert(
            encode_utf8("RegionId"@),
            encode_utf8(region_id@),
        ).insert(encode_utf8("ImageId"@), encode_utf8(image_id@)).insert(
            encode_utf8("InstanceType"@),
            encode_utf8(instance_type@),
        ),
{
    let mut p = base_params("RunInstances", "2014-05-26");
    p.insert(utf8_bytes("RegionId"), utf8_bytes(region_id));
    p.insert(utf8_bytes("ImageId"), utf8_bytes(image_id));
    p.insert(utf8_bytes("InstanceType"), utf8_bytes(instance_type));
    p
}

/// Parameters of `StartInstances`: starts the stopped instances named by
/// the identifier list.
pub fn start_instances(instance_ids: Vec<&str>) -> (r: ParamMap)
    ensures
        r.wf(),
        r@ == base_params_map("StartInstances"@, ecs_version()).insert(
            encode_utf8("InstanceIds"@),
            ids_list(instance_ids@.map_values(|s: &str| encode_utf8(s@))),
        ),
{
    let mut p = base_params("StartInstances", "2014-05-26");
    let ids = instance_ids_value(&instance_ids);
    p.insert(utf8_bytes("InstanceIds"), ids);
    p
}

/// Parameters of `StopInstances`: stops the running instances named by
/// the identifier list, optionally forced or as a dry run.
pub fn stop_instances(instance_ids: Vec<&str>, force_stop: Option<bool>, dry_run: Option<bool>) -> (r:
    ParamMap)
    ensures
        r.wf(),
        r@ == {
            let m = base_params_map("StopInstances"@, ecs_version()).insert(
                encode_utf8("InstanceIds"@),
                ids_list(instance_ids@.map_values(|s: &str| encode_utf8(s@))),
            );
            let m = match force_stop {
                Some(fs) => m.insert(encode_utf8("ForceStop"@), bool_text(fs)),
                None => m,
            };
            match dry_run {
                Some(dr) => m.insert(encode_utf8("DryRun"@), bool_text(dr)),
                None => m,
            }
        },
{
    let mut p = base_params("StopInstances", "2014-05-26");
    let ids = instance_ids_value(&instance_ids);
    p.insert(utf8_bytes("InstanceIds"), ids);
    if let Some(fs) = force_stop {
        p.insert(utf8_bytes("ForceStop"), bool_value(fs));
    }
    if let Some(dr) = dry_run {
        p.insert(utf8_bytes("DryRun"), bool_value(dr));
    }
    p
}

/// Parameters of `RebootInstance`: reboots one running instance,
/// optionally forced or as a dry run.
pub fn reboot_instance(instance_id: &str, force_stop: Option<bool>, dry_run: Option<bool>) -> (r:
    ParamMap)
    ensures
        r.wf(),
        r@ == {
            let m = base_params_map("RebootInstance"@, ecs_version()).insert(
                encode_utf8("InstanceId"@),
                encode_utf8(instance_id@),
            );
            let m = match force_stop {
                Some(fs) => m.insert(encode_utf8("ForceStop"@), bool_text(fs)),
                None => m,
            };
            match dry_run {
                Some(dr) => m.insert(encode_utf8("DryRun"@), bool_text(dr)),
                None => m,
            }
        },
{
    let mut p = base_params("RebootInstance", "2014-05-26");
    p.insert(utf8_bytes("InstanceId"), utf8_bytes(instance_id));
    if let Some(fs) = force_stop {
        p.insert(utf8_bytes("ForceStop"), bool_value(fs));
    }
    if let Some(dr) = dry_run {
        p.insert(utf8_bytes("DryRun"), bool_value(dr));
    }
    p
}

/// Parameters of `DeleteInstance`: deletes one instance for good.
pub fn delete_instance(instance_id: &str) -> (r: ParamMap)
    ensures
        r.wf(),
        r@ == base_params_map("DeleteInstance"@, ecs_version()).insert(
            encode_utf8("InstanceId"@),
            encode_utf8(instance_id@),
        ),
{
    let mut p = base_params("DeleteInstance", "2014-05-26");
    p.insert(utf8_bytes("InstanceId"), utf8_bytes(instance_id));
    p
}

/// Parameters of `DescribeInstanceStatus`: queries instance status in a
/// region, optionally narrowed to one instance and paged.
pub fn describe_instance_status(
    region_id: &str,
    instance_id: Option<&str>,
    page_number: Option<u32>,
    page_size: Option<u32>,
) -> (r: ParamMap)
    ensures
        r.wf(),
        r@ == {
            let m = base_params_map("DescribeInstanceStatus"@, ecs_version()).insert(
                encode_utf8("RegionId"@),
                encode_utf8(region_id@),
            );
            let m = match instance_id {
                Some(iid) => m.insert(encode_utf8("InstanceId"@), encode_utf8(iid@)),
                None => m,
            };
            let m = match page_number {
                Some(page) => m.insert(encode_utf8("PageNumber"@), dec_rep(page as nat)),
                None => m,
            };
            match page_size {
                Some(size) => m.insert(encode_utf8("PageSize"@), dec_rep(size as nat)),
                None => m,
            }
        },
{
    let mut p = base_params("DescribeInstanceStatus", "2014-05-26");
    p.insert(utf8_bytes("RegionId"), utf8_bytes(region_id));
    if let Some(iid) = instance_id {
        p.insert(utf8_bytes("InstanceId"), utf8_bytes(iid));
    }
    if let Some(page) = page_number {
        p.insert(utf8_bytes("PageNumber"), u32_decimal(page));
    }
    if let Some(size) = page_size {
        p.insert(utf8_bytes("PageSize"), u32_decimal(size));
    }
    p
}

/// Parameters of `DescribeInstances`: queries instance details in a
/// region, optionally filtered and paged.
pub fn describe_instances(
    region_id: &str,
    filters: Option<&str>,
    page_number: Option<u32>,
    page_size: Option<u32>,
) -> (r: ParamMap)
    ensures
        r.wf(),
        r@ == {
            let m = base_params_map("DescribeInstances"@, ecs_version()).insert(
                encode_utf8("RegionId"@),
                encode_utf8(region_id@),
            );
            let m = match filters {
                Some(f) => m.insert(encode_utf8("Filters"@), encode_utf8(f@)),
                None => m,
            };
            let m = match page_number {
                Some(page) => m.insert(encode_utf8("PageNumber"@), dec_rep(page as nat)),
                None => m,
            };
            match page_size {
                Some(size) => m.insert(encode_utf8("PageSize"@), dec_rep(size as nat)),
                None => m,
            }
        },
{
    let mut p = base_params("DescribeInstances", "2014-05-26");
    p.insert(utf8_bytes("RegionId"), utf8_bytes(region_id));
    if let Some(f) = filters {
        p.insert(utf8_bytes("Filters"), utf8_bytes(f));
    }
    if let Some(page) = page_number {
        p.insert(utf8_bytes("PageNumber"), u32_decimal(page));
    }
    if let Some(size) = page_size {
        p.insert(utf8_bytes("PageSize"), u32_decimal(size));
    }
    p
}

} // verus!

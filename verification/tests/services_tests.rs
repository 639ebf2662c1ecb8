use aliyun_sdk::services::{billing, ecs, sts};

#[test]
fn test_query_account_balance() {
    let p = billing::query_account_balance();
    assert_eq!(
        p.canonical_string(),
        b"Action=QueryAccountBalance&Format=JSON&Version=2017-12-14".to_vec()
    );
}

#[test]
fn test_get_caller_identity() {
    let p = sts::get_caller_identity();
    assert_eq!(
        p.canonical_string(),
        b"Action=GetCallerIdentity&Format=JSON&Version=2015-04-01".to_vec()
    );
}

#[test]
fn test_describe_regions() {
    let p = ecs::describe_regions(Some("cn-hangzhou"));
    assert_eq!(
        p.canonical_string(),
        b"Action=DescribeRegions&Format=JSON&RegionId=cn-hangzhou&Version=2014-05-26".to_vec()
    );
    let p = ecs::describe_regions(None);
    assert_eq!(
        p.canonical_string(),
        b"Action=DescribeRegions&Format=JSON&Version=2014-05-26".to_vec()
    );
}

#[test]
fn test_describe_zones() {
    let p = ecs::describe_zones("cn-hangzhou");
    assert_eq!(
        p.canonical_string(),
        b"Action=DescribeZones&Format=JSON&RegionId=cn-hangzhou&Version=2014-05-26".to_vec()
    );
}

#[test]
fn test_describe_available_resource() {
    let p = ecs::describe_available_resource("cn-hangzhou", "cn-hangzhou-d");
    assert_eq!(
        p.canonical_string(),
        b"Action=DescribeAvailableResource&Format=JSON&RegionId=cn-hangzhou&Version=2014-05-26&ZoneId=cn-hangzhou-d".to_vec()
    );
}

#[test]
fn test_describe_account_attributes() {
    let p = ecs::describe_account_attributes();
    assert_eq!(
        p.canonical_string(),
        b"Action=DescribeAccountAttributes&Format=JSON&Version=2014-05-26".to_vec()
    );
}

#[test]
fn test_describe_resources_modification() {
    let p = ecs::describe_resources_modification("cn-hangzhou", "cn-hangzhou-d");
    assert_eq!(
        p.canonical_string(),
        b"Action=DescribeResourcesModification&Format=JSON&RegionId=cn-hangzhou&Version=2014-05-26&ZoneId=cn-hangzhou-d".to_vec()
    );
}

#[test]
fn test_describe_recommend_instance_type() {
    let p = ecs::describe_recommend_instance_type("cn-hangzhou");
    assert_eq!(
        p.canonical_string(),
        b"Action=DescribeRecommendInstanceType&Format=JSON&RegionId=cn-hangzhou&Version=2014-05-26".to_vec()
    );
}

#[test]
fn test_run_instances() {
    let p = ecs::run_instances("cn-hangzhou", "YourImageId", "ecs.g5.large");
    assert_eq!(
        p.canonical_string(),
        b"Action=RunInstances&Format=JSON&ImageId=YourImageId&InstanceType=ecs.g5.large&RegionId=cn-hangzhou&Version=2014-05-26".to_vec()
    );
}

#[test]
fn test_start_instances() {
    let p = ecs::start_instances(vec!["i-111", "i-222"]);
    assert_eq!(
        p.canonical_string(),
        b"Action=StartInstances&Format=JSON&InstanceIds=%5B%22i-111%22%2C%22i-222%22%5D&Version=2014-05-26".to_vec()
    );
}

#[test]
fn test_stop_instances() {
    let p = ecs::stop_instances(vec!["i-111"], Some(true), Some(false));
    assert_eq!(
        p.canonical_string(),
        b"Action=StopInstances&DryRun=false&ForceStop=true&Format=JSON&InstanceIds=%5B%22i-111%22%5D&Version=2014-05-26".to_vec()
    );
    let p = ecs::stop_instances(vec![], None, None);
    assert_eq!(
        p.canonical_string(),
        b"Action=StopInstances&Format=JSON&InstanceIds=%5B%5D&Version=2014-05-26".to_vec()
    );
}

#[test]
fn test_reboot_instance() {
    let p = ecs::reboot_instance("YourInstanceId", Some(false), None);
    assert_eq!(
        p.canonical_string(),
        b"Action=RebootInstance&ForceStop=false&Format=JSON&InstanceId=YourInstanceId&Version=2014-05-26".to_vec()
    );
}

#[test]
fn test_delete_instance() {
    let p = ecs::delete_instance("YourInstanceId");
    assert_eq!(
        p.canonical_string(),
        b"Action=DeleteInstance&Format=JSON&InstanceId=YourInstanceId&Version=2014-05-26".to_vec()
    );
}

#[test]
fn test_describe_instance_status() {
    let p = ecs::describe_instance_status("cn-hangzhou", None, Some(1), Some(10));
    assert_eq!(
        p.canonical_string(),
        b"Action=DescribeInstanceStatus&Format=JSON&PageNumber=1&PageSize=10&RegionId=cn-hangzhou&Version=2014-05-26".to_vec()
    );
}

#[test]
fn test_describe_instances() {
    let p = ecs::describe_instances("cn-hangzhou", None, Some(1), Some(10));
    assert_eq!(
        p.canonical_string(),
        b"Action=DescribeInstances&Format=JSON&PageNumber=1&PageSize=10&RegionId=cn-hangzhou&Version=2014-05-26".to_vec()
    );
}

#[test]
fn test_page_numbers_render_in_decimal() {
    let p = ecs::describe_instances("r", None, Some(0), Some(4294967295));
    assert_eq!(
        p.canonical_string(),
        b"Action=DescribeInstances&Format=JSON&PageNumber=0&PageSize=4294967295&RegionId=r&Version=2014-05-26".to_vec()
    );
}

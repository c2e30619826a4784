use query_engine::kernels::CollectKernel;
use query_engine::kernels::FilterKernel;
use query_engine::kernels::GeneratorKernel;

#[test]
fn test_kernels() {
    let collect = CollectKernel::new();
    let filter = FilterKernel::new(4, collect);
    let mut gen = GeneratorKernel::new(filter);
    gen.execute(());

    assert_eq!(gen.child.child.res, vec![5, 6, 7, 8, 9]);
}

#[test]
fn collect_kernel_keeps_only_passing_values() {
    let mut collect = CollectKernel::new();
    collect.execute((true, 3));
    collect.execute((false, 9));
    collect.execute((true, 1));
    assert_eq!(collect.res, vec![3, 1]);
}

use wgpu_backend::error::WgpuError;
use wgpu_backend::layout::{all_positive, checked_count, Layout, Shape};

#[test]
fn shape_counts_its_elements() {
    assert_eq!(Shape::from_dims(vec![]).elem_count(), Some(1));
    assert_eq!(Shape::from_dims(vec![2, 3, 4]).elem_count(), Some(24));
    assert_eq!(Shape::from_dims(vec![5, 0, 7]).elem_count(), Some(0));
    assert_eq!(Shape::from_dims(vec![usize::MAX, 2]).elem_count(), None);
    assert_eq!(Shape::from_dims(vec![usize::MAX, 2, 0]).elem_count(), Some(0));
    assert_eq!(Shape::from_dims(vec![2, 3]).rank(), 2);
    assert_eq!(Shape::from_dims(vec![2, 3]).dims(), &vec![2, 3]);
    assert_eq!(checked_count(&vec![1 << 32, 1 << 31]), Some(1 << 63));
    assert_eq!(checked_count(&vec![1 << 32, 1 << 32]), None);
    assert!(all_positive(&vec![1, 2, 3]));
    assert!(!all_positive(&vec![1, 0, 3]));
    assert!(all_positive(&vec![]));
}

#[test]
fn contiguous_strides_are_row_major() {
    let layout = Layout::contiguous(Shape::from_dims(vec![2, 3, 4])).unwrap();
    assert_eq!(layout.dims(), &vec![2, 3, 4]);
    assert_eq!(layout.shape(), &Shape::from_dims(vec![2, 3, 4]));
    assert_eq!(layout.stride(), &vec![12, 4, 1]);
    assert_eq!(layout.start_offset(), 0);
    let scalar = Layout::contiguous(Shape::from_dims(vec![])).unwrap();
    assert_eq!(scalar.stride(), &Vec::<usize>::new());
    let line = Layout::contiguous(Shape::from_dims(vec![7])).unwrap();
    assert_eq!(line.stride(), &vec![1]);
}

#[test]
fn contiguous_refuses_what_no_storage_holds() {
    assert_eq!(Layout::contiguous(Shape::from_dims(vec![2, 0])), Err(WgpuError::LayoutError));
    assert_eq!(
        Layout::contiguous(Shape::from_dims(vec![usize::MAX, 2])),
        Err(WgpuError::LayoutError)
    );
    assert!(Layout::contiguous(Shape::from_dims(vec![usize::MAX, 1])).is_ok());
}

#[test]
fn new_wants_one_stride_for_each_positive_dimension() {
    assert_eq!(
        Layout::new(Shape::from_dims(vec![2, 3]), vec![3], 0),
        Err(WgpuError::LayoutError)
    );
    assert_eq!(
        Layout::new(Shape::from_dims(vec![2]), vec![3, 1], 0),
        Err(WgpuError::LayoutError)
    );
    assert_eq!(
        Layout::new(Shape::from_dims(vec![2, 0]), vec![3, 1], 0),
        Err(WgpuError::LayoutError)
    );
    let layout = Layout::new(Shape::from_dims(vec![2, 3]), vec![1, 2], 5).unwrap();
    assert_eq!(layout.dims(), &vec![2, 3]);
    assert_eq!(layout.stride(), &vec![1, 2]);
    assert_eq!(layout.start_offset(), 5);
}

#[test]
fn fits_goes_by_the_last_element() {
    let layout = Layout::new(Shape::from_dims(vec![2, 3]), vec![1, 2], 5).unwrap();
    // The last element lies at 5 + 1 * 1 + 2 * 2 = 10.
    assert!(layout.fits(11));
    assert!(!layout.fits(10));
    assert!(!layout.fits(0));
    let scalar = Layout::new(Shape::from_dims(vec![]), vec![], 3).unwrap();
    assert!(scalar.fits(4));
    assert!(!scalar.fits(3));
    let broadcast = Layout::new(Shape::from_dims(vec![1000, 1000]), vec![0, 0], 0).unwrap();
    assert!(broadcast.fits(1));
    let huge = Layout::new(Shape::from_dims(vec![3, 2]), vec![usize::MAX, 1], 0).unwrap();
    assert!(!huge.fits(usize::MAX));
    let late = Layout::new(Shape::from_dims(vec![2]), vec![1], usize::MAX).unwrap();
    assert!(!late.fits(usize::MAX));
}

#[test]
fn strided_index_walks_in_row_major_order() {
    let layout = Layout::new(Shape::from_dims(vec![2, 3]), vec![1, 2], 5).unwrap();
    let places: Vec<Option<usize>> = (0..6).map(|k| layout.strided_index(k, 11)).collect();
    assert_eq!(places, vec![Some(5), Some(7), Some(9), Some(6), Some(8), Some(10)]);
    assert_eq!(layout.strided_index(0, 10), None);
    let contiguous = Layout::contiguous(Shape::from_dims(vec![2, 3, 4])).unwrap();
    for k in 0..24 {
        assert_eq!(contiguous.strided_index(k, 24), Some(k));
    }
    let scalar = Layout::new(Shape::from_dims(vec![]), vec![], 3).unwrap();
    assert_eq!(scalar.strided_index(0, 4), Some(3));
}

#[test]
fn is_contiguous_goes_by_the_strides() {
    let shape = || Shape::from_dims(vec![2, 3, 4]);
    assert!(Layout::contiguous(shape()).unwrap().is_contiguous());
    assert!(Layout::new(shape(), vec![12, 4, 1], 7).unwrap().is_contiguous());
    assert!(!Layout::new(shape(), vec![12, 4, 2], 0).unwrap().is_contiguous());
    assert!(!Layout::new(shape(), vec![12, 5, 1], 0).unwrap().is_contiguous());
    assert!(!Layout::new(shape(), vec![1, 2, 6], 0).unwrap().is_contiguous());
    assert!(Layout::new(Shape::from_dims(vec![]), vec![], 3).unwrap().is_contiguous());
    let wide = Shape::from_dims(vec![usize::MAX, usize::MAX]);
    assert!(Layout::new(wide, vec![usize::MAX, 1], 0).unwrap().is_contiguous());
    let wider = Shape::from_dims(vec![2, usize::MAX, usize::MAX]);
    assert!(!Layout::new(wider, vec![1, usize::MAX, 1], 0).unwrap().is_contiguous());
}

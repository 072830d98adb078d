use tailcall_chunk::Chunk;

#[test]
fn test_new() {
    let chunk: Chunk<i32> = Chunk::default();
    assert!(chunk.is_null());
}

#[test]
fn test_default() {
    let chunk: Chunk<i32> = Chunk::default();
    assert!(chunk.is_null());
}

#[test]
fn test_is_null() {
    let empty: Chunk<i32> = Chunk::default();
    assert!(empty.is_null());

    let non_empty = empty.append(1);
    assert!(!non_empty.is_null());
}

#[test]
fn test_append() {
    let chunk = Chunk::default().append(1).append(2).append(3);
    assert_eq!(chunk.as_vec(), vec![1, 2, 3]);

    // The original chunk remains unchanged.
    let chunk1 = Chunk::default().append(1);
    let chunk2 = chunk1.clone().append(2);
    assert_eq!(chunk1.as_vec(), vec![1]);
    assert_eq!(chunk2.as_vec(), vec![1, 2]);
}

#[test]
fn test_concat() {
    let chunk1 = Chunk::default().append(1).append(2);
    let chunk2 = Chunk::default().append(3).append(4);
    let combined = chunk1.clone().concat(chunk2.clone());

    assert_eq!(combined.as_vec(), vec![1, 2, 3, 4]);

    // Concatenation with empty chunks.
    let empty = Chunk::default();
    assert_eq!(
        empty.clone().concat(chunk1.clone()).as_vec(),
        chunk1.as_vec()
    );
    assert_eq!(
        chunk1.clone().concat(empty.clone()).as_vec(),
        chunk1.as_vec()
    );
    assert_eq!(empty.clone().concat(empty).as_vec(), Vec::<i32>::new());
}

#[test]
fn test_as_vec() {
    // Empty chunk.
    let empty: Chunk<i32> = Chunk::default();
    assert_eq!(empty.as_vec(), Vec::<i32>::new());

    // Single element.
    let single = Chunk::default().append(42);
    assert_eq!(single.as_vec(), vec![42]);

    // Multiple elements.
    let multiple = Chunk::default().append(1).append(2).append(3);
    assert_eq!(multiple.as_vec(), vec![1, 2, 3]);

    // Concatenation.
    let chunk1 = Chunk::default().append(1).append(2);
    let chunk2 = Chunk::default().append(3).append(4);
    let complex = chunk1.concat(chunk2);
    assert_eq!(complex.as_vec(), vec![1, 2, 3, 4]);
}

#[test]
fn test_structural_sharing() {
    let chunk1 = Chunk::default().append(1).append(2);
    let chunk2 = chunk1.clone().append(3);
    let chunk3 = chunk1.clone().append(4);

    // Extending a clone builds a new chunk and preserves the original.
    assert_eq!(chunk1.as_vec(), vec![1, 2]);
    assert_eq!(chunk2.as_vec(), vec![1, 2, 3]);
    assert_eq!(chunk3.as_vec(), vec![1, 2, 4]);
}

#[test]
fn test_with_different_types() {
    // Strings.
    let string_chunk = Chunk::default()
        .append(String::from("hello"))
        .append(String::from("world"));
    assert_eq!(string_chunk.as_vec().len(), 2);

    // Floating point numbers.
    let float_chunk = Chunk::default().append(3.14).append(2.718);
    assert_eq!(float_chunk.as_vec(), vec![3.14, 2.718]);

    // Boolean values.
    let bool_chunk = Chunk::default().append(true).append(false).append(true);
    assert_eq!(bool_chunk.as_vec(), vec![true, false, true]);
}

#[test]
fn test_transform() {
    // Empty chunk.
    let empty: Chunk<i32> = Chunk::default();
    let transformed_empty = empty.transform(|x| x * 2);
    assert_eq!(transformed_empty.as_vec(), Vec::<i32>::new());

    // Single element.
    let single = Chunk::default().append(5);
    let doubled = single.transform(|x| x * 2);
    assert_eq!(doubled.as_vec(), vec![10]);

    // Multiple elements.
    let multiple = Chunk::default().append(1).append(2).append(3);
    let doubled = multiple.transform(|x| x * 2);
    assert_eq!(doubled.as_vec(), vec![2, 4, 6]);

    // String manipulation.
    let string_chunk = Chunk::default()
        .append(String::from("hello"))
        .append(String::from("world"));
    let uppercase = string_chunk.transform(|s| s.to_uppercase());
    assert_eq!(uppercase.as_vec(), vec!["HELLO", "WORLD"]);

    // Chained transforms.
    let numbers = Chunk::default().append(1).append(2).append(3);
    let result = numbers
        .transform(|x| x * 2)
        .transform(|x| x + 1)
        .transform(|x| x * 3);
    assert_eq!(result.as_vec(), vec![9, 15, 21]);
}

#[test]
fn test_transform_flatten() {
    // Empty chunk.
    let empty: Chunk<i32> = Chunk::default();
    let transformed_empty = empty.transform_flatten(|x| Chunk::new().append(x * 2));
    assert_eq!(transformed_empty.as_vec(), Vec::<i32>::new());

    // Single element.
    let single = Chunk::default().append(5);
    let doubled = single.transform_flatten(|x| Chunk::new().append(x * 2));
    assert_eq!(doubled.as_vec(), vec![10]);

    // Each element expands into several.
    let numbers = Chunk::default().append(1).append(2);
    let expanded = numbers.transform_flatten(|x| Chunk::default().append(x + 1).append(x));
    assert_eq!(expanded.as_vec(), vec![2, 1, 3, 2]);

    // Expansions of different lengths.
    let chunk = Chunk::default().append(1).append(2).append(3);
    let nested = chunk.transform_flatten(|x| {
        if x % 2 == 0 {
            // Even numbers expand to [x, x+1].
            Chunk::default().append(x).append(x + 1)
        } else {
            // Odd numbers expand to [x].
            Chunk::new().append(x)
        }
    });
    assert_eq!(nested.as_vec(), vec![1, 2, 3, 3]);

    // Chained transform_flatten operations.
    let numbers = Chunk::default().append(1).append(2);
    let result = numbers
        .transform_flatten(|x| Chunk::default().append(x).append(x))
        .transform_flatten(|x| Chunk::default().append(x).append(x + 1));
    assert_eq!(result.as_vec(), vec![1, 2, 1, 2, 2, 3, 2, 3]);

    // Empty expansions.
    let chunk = Chunk::default().append(1).append(2);
    let filtered = chunk.transform_flatten(|x| {
        if x % 2 == 0 {
            Chunk::new().append(x)
        } else {
            Chunk::default() // Nothing for odd numbers.
        }
    });
    assert_eq!(filtered.as_vec(), vec![2]);
}

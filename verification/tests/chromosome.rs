use snake_evolution::chromosome::Chromosome;

#[test]
fn chromosome_test() {
    let chromosome = Chromosome::from_vec(vec![1.0, 2.0, 3.0]);

    assert_eq!(chromosome.get(0), 1.0);
    assert_eq!(chromosome.get(1), 2.0);
    assert_eq!(chromosome.get(2), 3.0);
}

#[test]
fn chromosome_test_from_iterator() {
    let chromosome: Chromosome<f32> = Chromosome::from_vec(vec![1.0, 2.0, 3.0].into_iter().collect());

    assert_eq!(chromosome.len(), 3);
    assert_eq!(chromosome.get(0), 1.0);
    assert_eq!(chromosome.get(1), 2.0);
    assert_eq!(chromosome.get(2), 3.0);
}

#[test]
fn chromosome_test_into_iterator() {
    let chromosome = Chromosome::from_vec(vec![1.0, 2.0, 3.0]);

    let genes: Vec<f32> = chromosome.into_iter().collect();

    assert_eq!(genes.len(), 3);
    assert_eq!(genes[0], 1.0);
    assert_eq!(genes[1], 2.0);
    assert_eq!(genes[2], 3.0);
}

#[test]
fn chromosome_iter_visits_the_genes_in_order() {
    let chromosome = Chromosome::from_vec(vec![4, 5, 6]);
    let genes: Vec<i32> = chromosome.iter().cloned().collect();
    assert_eq!(genes, vec![4, 5, 6]);
    assert_eq!(chromosome.iter().sum::<i32>(), 15);
}

#[test]
fn chromosome_split_at_gives_both_parts() {
    let chromosome = Chromosome::from_vec(vec![1, 2, 3, 4, 5]);

    let [left, right] = chromosome.split_at(2);
    assert_eq!(left.into_vec(), vec![1, 2]);
    assert_eq!(right.into_vec(), vec![3, 4, 5]);

    let [left, right] = chromosome.split_at(0);
    assert_eq!(left.len(), 0);
    assert_eq!(right.into_vec(), vec![1, 2, 3, 4, 5]);

    let [left, right] = chromosome.split_at(5);
    assert_eq!(left.into_vec(), vec![1, 2, 3, 4, 5]);
    assert_eq!(right.len(), 0);
}

#[test]
fn chromosome_set_changes_one_gene() {
    let mut chromosome = Chromosome::from_vec(vec![1, 2, 3]);
    chromosome.set(1, 7);
    assert_eq!(*chromosome.as_vec(), vec![1, 7, 3]);
}

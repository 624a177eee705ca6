//! K-means clustering of feature vectors by Lloyd's algorithm: assign every
//! point to its nearest centroid, move every centroid to the mean of its
//! points, and repeat until the assignment no longer changes.

use rand::Rng;
use vstd::prelude::*;
use crate::error::Error;
use crate::kernel::{feature_distance, squared_distance, Feature};

verus! {

/// The index of the centroid nearest to `p` among the first `n` of
/// `centroids`; of several equally near, the one with the lowest index.
pub open spec fn nearest_among(p: Feature, centroids: Seq<Feature>, n: nat) -> int
    decreases n,
{
    if n <= 1 {
        0
    } else {
        let best = nearest_among(p, centroids, (n - 1) as nat);
        if feature_distance(p, centroids[n - 1]) < feature_distance(p, centroids[best]) {
            n - 1
        } else {
            best
        }
    }
}

/// The index of the centroid nearest to `p`.
pub open spec fn nearest(p: Feature, centroids: Seq<Feature>) -> int {
    nearest_among(p, centroids, centroids.len())
}

/// `j` is the first centroid at minimum distance from `p`.
pub open spec fn is_first_minimum(p: Feature, centroids: Seq<Feature>, n: nat, j: int) -> bool {
    &&& 0 <= j < n
    &&& forall|i: int|
        0 <= i < n ==> feature_distance(p, centroids[j]) <= #[trigger] feature_distance(
            p,
            centroids[i],
        )
    &&& forall|i: int|
        0 <= i < j ==> feature_distance(p, centroids[j]) < #[trigger] feature_distance(
            p,
            centroids[i],
        )
}

/// `nearest_among` picks the first centroid at minimum distance.
pub proof fn lemma_nearest_among(p: Feature, centroids: Seq<Feature>, n: nat)
    requires
        0 < n <= centroids.len(),
    ensures
        is_first_minimum(p, centroids, n, nearest_among(p, centroids, n)),
    decreases n,
{
    if n > 1 {
        lemma_nearest_among(p, centroids, (n - 1) as nat);
    }
}

/// No centroid is nearer to a point than its nearest one, and none of a lower
/// index is as near.
pub proof fn lemma_nearest(p: Feature, centroids: Seq<Feature>)
    requires
        centroids.len() > 0,
    ensures
        is_first_minimum(p, centroids, centroids.len(), nearest(p, centroids)),
{
    lemma_nearest_among(p, centroids, centroids.len());
}

/// The assignment vector: for every point the index of its nearest centroid.
pub open spec fn assignments_for(features: Seq<Feature>, centroids: Seq<Feature>) -> Seq<usize> {
    Seq::new(features.len(), |i: int| nearest(features[i], centroids) as usize)
}

/// Every entry of `assignments` names one of `k` clusters, one entry per point.
pub open spec fn valid_assignments(assignments: Seq<usize>, points: nat, k: nat) -> bool {
    &&& assignments.len() == points
    &&& forall|i: int| 0 <= i < assignments.len() ==> #[trigger] assignments[i] < k
}

/// The assignment to nearest centroids is valid and names nearest centroids.
pub proof fn lemma_assignments_for(features: Seq<Feature>, centroids: Seq<Feature>)
    requires
        0 < centroids.len() <= usize::MAX,
    ensures
        valid_assignments(assignments_for(features, centroids), features.len(), centroids.len()),
        forall|i: int|
            0 <= i < features.len() ==> #[trigger] assignments_for(features, centroids)[i]
                == nearest(features[i], centroids),
{
    let assignments = assignments_for(features, centroids);
    assert forall|i: int| 0 <= i < features.len() implies #[trigger] assignments[i] == nearest(
        features[i],
        centroids,
    ) && nearest(features[i], centroids) < centroids.len() by {
        lemma_nearest(features[i], centroids);
    }
}

/// Scans the centroids in order and keeps the first at minimum distance.
fn nearest_index(p: &Feature, centroids: &Vec<Feature>) -> (j: usize)
    requires
        centroids.len() > 0,
    ensures
        j == nearest(*p, centroids@),
        j < centroids.len(),
{
    let mut best: usize = 0;
    let mut best_distance: u128 = squared_distance(p, &centroids[0]);
    let mut n: usize = 1;
    while n < centroids.len()
        invariant
            1 <= n <= centroids.len(),
            best == nearest_among(*p, centroids@, n as nat),
            best < n,
            best_distance == feature_distance(*p, centroids@[best as int]),
        decreases centroids.len() - n,
    {
        let distance = squared_distance(p, &centroids[n]);
        if distance < best_distance {
            best = n;
            best_distance = distance;
        }
        n += 1;
    }
    best
}

/// Finds the centroid nearest to `p`, the first of several equally near.
/// Without centroids there is none.
pub fn nearest_centroid(p: &Feature, centroids: &Vec<Feature>) -> (out: Option<usize>)
    ensures
        match out {
            Some(j) => centroids.len() > 0 && j == nearest(*p, centroids@) && j < centroids.len(),
            None => centroids.len() == 0,
        },
{
    if centroids.len() == 0 {
        None
    } else {
        Some(nearest_index(p, centroids))
    }
}

/// The assignment step on at least one centroid.
fn assign_points(features: &Vec<Feature>, centroids: &Vec<Feature>) -> (assignments: Vec<usize>)
    requires
        centroids.len() > 0,
    ensures
        assignments@ == assignments_for(features@, centroids@),
{
    let mut assignments: Vec<usize> = Vec::new();
    let mut i: usize = 0;
    while i < features.len()
        invariant
            i <= features.len(),
            centroids.len() > 0,
            assignments.len() == i,
            forall|m: int|
                0 <= m < i ==> #[trigger] assignments[m] == nearest(features@[m], centroids@),
        decreases features.len() - i,
    {
        let j = nearest_index(&features[i], centroids);
        assignments.push(j);
        i += 1;
    }
    assert(assignments@ =~= assignments_for(features@, centroids@));
    assignments
}

/// The assignment step: records for every point the index of its nearest
/// centroid. Without centroids there is nothing to assign to.
pub fn assign_clusters(features: &Vec<Feature>, centroids: &Vec<Feature>) -> (out: Option<
    Vec<usize>,
>)
    ensures
        centroids.len() == 0 <==> out.is_none(),
        out matches Some(assignments) ==> assignments@ == assignments_for(
            features@,
            centroids@,
        ),
{
    if centroids.len() == 0 {
        None
    } else {
        Some(assign_points(features, centroids))
    }
}

/// Coordinate `c` of a feature vector: 0 is red, 1 is green, anything else blue.
pub open spec fn coordinate(f: Feature, c: int) -> nat {
    if c == 0 {
        f.r as nat
    } else if c == 1 {
        f.g as nat
    } else {
        f.b as nat
    }
}

/// How many of the first `n` points are assigned to cluster `j`.
pub open spec fn cluster_size(assignments: Seq<usize>, j: int, n: nat) -> nat
    decreases n,
{
    if n == 0 {
        0
    } else {
        cluster_size(assignments, j, (n - 1) as nat) + if assignments[n - 1] == j {
            1nat
        } else {
            0nat
        }
    }
}

/// The sum of coordinate `c` over those of the first `n` points that are
/// assigned to cluster `j`.
pub open spec fn cluster_sum(
    features: Seq<Feature>,
    assignments: Seq<usize>,
    j: int,
    c: int,
    n: nat,
) -> nat
    decreases n,
{
    if n == 0 {
        0
    } else {
        cluster_sum(features, assignments, j, c, (n - 1) as nat) + if assignments[n - 1] == j {
            coordinate(features[n - 1], c)
        } else {
            0nat
        }
    }
}

/// The mean of coordinate `c` over the points of cluster `j`, truncated to the
/// fixed-point grid.
pub open spec fn cluster_mean(
    features: Seq<Feature>,
    assignments: Seq<usize>,
    j: int,
    c: int,
) -> nat {
    cluster_sum(features, assignments, j, c, features.len()) / cluster_size(
        assignments,
        j,
        features.len(),
    )
}

/// The centroid of cluster `j` after an update step: the mean of the points
/// assigned to it, or `previous` if no point is.
pub open spec fn updated_centroid(
    features: Seq<Feature>,
    assignments: Seq<usize>,
    previous: Feature,
    j: int,
) -> Feature {
    if cluster_size(assignments, j, features.len()) == 0 {
        previous
    } else {
        Feature {
            r: cluster_mean(features, assignments, j, 0) as u32,
            g: cluster_mean(features, assignments, j, 1) as u32,
            b: cluster_mean(features, assignments, j, 2) as u32,
        }
    }
}

/// All centroids after an update step.
pub open spec fn updated(
    features: Seq<Feature>,
    assignments: Seq<usize>,
    centroids: Seq<Feature>,
) -> Seq<Feature> {
    Seq::new(
        centroids.len(),
        |j: int| updated_centroid(features, assignments, centroids[j], j),
    )
}

/// A cluster's coordinate sum is at most its size times the largest
/// coordinate, and its size at most the number of points counted.
pub proof fn lemma_cluster_bounds(
    features: Seq<Feature>,
    assignments: Seq<usize>,
    j: int,
    c: int,
    n: nat,
)
    ensures
        cluster_size(assignments, j, n) <= n,
        cluster_sum(features, assignments, j, c, n) <= 0xFFFF_FFFF * cluster_size(
            assignments,
            j,
            n,
        ),
    decreases n,
{
    if n > 0 {
        lemma_cluster_bounds(features, assignments, j, c, (n - 1) as nat);
    }
}

/// The mean of a non-empty cluster is a coordinate value.
pub proof fn lemma_cluster_mean_bound(
    features: Seq<Feature>,
    assignments: Seq<usize>,
    j: int,
    c: int,
)
    requires
        cluster_size(assignments, j, features.len()) > 0,
    ensures
        cluster_mean(features, assignments, j, c) <= 0xFFFF_FFFF,
{
    lemma_cluster_bounds(features, assignments, j, c, features.len());
    let sum = cluster_sum(features, assignments, j, c, features.len()) as int;
    let size = cluster_size(assignments, j, features.len()) as int;
    assert(sum / size <= 0xFFFF_FFFF) by (nonlinear_arith)
        requires
            0 <= sum <= 0xFFFF_FFFF * size,
            size > 0,
    ;
}

/// Checks that `assignments` holds one cluster index below `k` per point.
pub fn check_assignments(assignments: &Vec<usize>, points: usize, k: usize) -> (ok: bool)
    ensures
        ok == valid_assignments(assignments@, points as nat, k as nat),
{
    if assignments.len() != points {
        return false;
    }
    let mut i: usize = 0;
    while i < assignments.len()
        invariant
            i <= assignments.len(),
            assignments.len() == points,
            forall|m: int| 0 <= m < i ==> #[trigger] assignments[m] < k,
        decreases assignments.len() - i,
    {
        if assignments[i] >= k {
            return false;
        }
        i += 1;
    }
    true
}

/// The truncated mean of a cluster coordinate.
fn mean_coordinate(sum: u128, size: usize) -> (mean: u32)
    requires
        size > 0,
        sum <= 0xFFFF_FFFF * size,
    ensures
        mean == sum as nat / size as nat,
{
    assert(sum as int / size as int <= 0xFFFF_FFFF) by (nonlinear_arith)
        requires
            0 <= sum <= 0xFFFF_FFFF * size,
            size > 0,
    ;
    (sum / (size as u128)) as u32
}

/// The update step on a valid assignment: one pass over the points sums
/// every cluster, one pass over the clusters divides.
fn move_centroids(
    features: &Vec<Feature>,
    assignments: &Vec<usize>,
    centroids: &Vec<Feature>,
) -> (moved: Vec<Feature>)
    requires
        valid_assignments(assignments@, features@.len(), centroids@.len()),
    ensures
        moved@ == updated(features@, assignments@, centroids@),
{
    let k = centroids.len();
    let mut sizes: Vec<usize> = Vec::new();
    let mut sums_r: Vec<u128> = Vec::new();
    let mut sums_g: Vec<u128> = Vec::new();
    let mut sums_b: Vec<u128> = Vec::new();
    let mut j: usize = 0;
    while j < k
        invariant
            j <= k,
            sizes.len() == j,
            sums_r.len() == j,
            sums_g.len() == j,
            sums_b.len() == j,
            forall|m: int| 0 <= m < j ==> #[trigger] sizes[m] == 0,
            forall|m: int| 0 <= m < j ==> #[trigger] sums_r[m] == 0,
            forall|m: int| 0 <= m < j ==> #[trigger] sums_g[m] == 0,
            forall|m: int| 0 <= m < j ==> #[trigger] sums_b[m] == 0,
        decreases k - j,
    {
        sizes.push(0);
        sums_r.push(0);
        sums_g.push(0);
        sums_b.push(0);
        j += 1;
    }
    let mut i: usize = 0;
    while i < features.len()
        invariant
            i <= features.len(),
            k == centroids.len(),
            valid_assignments(assignments@, features@.len(), k as nat),
            sizes.len() == k,
            sums_r.len() == k,
            sums_g.len() == k,
            sums_b.len() == k,
            forall|m: int|
                0 <= m < k ==> #[trigger] sizes[m] == cluster_size(assignments@, m, i as nat),
            forall|m: int|
                0 <= m < k ==> #[trigger] sums_r[m] == cluster_sum(
                    features@,
                    assignments@,
                    m,
                    0,
                    i as nat,
                ),
            forall|m: int|
                0 <= m < k ==> #[trigger] sums_g[m] == cluster_sum(
                    features@,
                    assignments@,
                    m,
                    1,
                    i as nat,
                ),
            forall|m: int|
                0 <= m < k ==> #[trigger] sums_b[m] == cluster_sum(
                    features@,
                    assignments@,
                    m,
                    2,
                    i as nat,
                ),
        decreases features.len() - i,
    {
        let cluster = assignments[i];
        let point = features[i];
        proof {
            lemma_cluster_bounds(features@, assignments@, cluster as int, 0, i as nat);
            lemma_cluster_bounds(features@, assignments@, cluster as int, 1, i as nat);
            lemma_cluster_bounds(features@, assignments@, cluster as int, 2, i as nat);
        }
        sizes.set(cluster, sizes[cluster] + 1);
        sums_r.set(cluster, sums_r[cluster] + point.r as u128);
        sums_g.set(cluster, sums_g[cluster] + point.g as u128);
        sums_b.set(cluster, sums_b[cluster] + point.b as u128);
        i += 1;
    }
    let mut moved: Vec<Feature> = Vec::new();
    let mut j: usize = 0;
    while j < k
        invariant
            j <= k,
            k == centroids.len(),
            i == features.len(),
            sizes.len() == k,
            sums_r.len() == k,
            sums_g.len() == k,
            sums_b.len() == k,
            forall|m: int|
                0 <= m < k ==> #[trigger] sizes[m] == cluster_size(assignments@, m, i as nat),
            forall|m: int|
                0 <= m < k ==> #[trigger] sums_r[m] == cluster_sum(
                    features@,
                    assignments@,
                    m,
                    0,
                    i as nat,
                ),
            forall|m: int|
                0 <= m < k ==> #[trigger] sums_g[m] == cluster_sum(
                    features@,
                    assignments@,
                    m,
                    1,
                    i as nat,
                ),
            forall|m: int|
                0 <= m < k ==> #[trigger] sums_b[m] == cluster_sum(
                    features@,
                    assignments@,
                    m,
                    2,
                    i as nat,
                ),
            moved.len() == j,
            forall|m: int|
                0 <= m < j ==> #[trigger] moved[m] == updated_centroid(
                    features@,
                    assignments@,
                    centroids@[m],
                    m,
                ),
        decreases k - j,
    {
        let size = sizes[j];
        if size == 0 {
            moved.push(centroids[j]);
        } else {
            proof {
                lemma_cluster_bounds(features@, assignments@, j as int, 0, i as nat);
                lemma_cluster_bounds(features@, assignments@, j as int, 1, i as nat);
                lemma_cluster_bounds(features@, assignments@, j as int, 2, i as nat);
            }
            moved.push(
                Feature {
                    r: mean_coordinate(sums_r[j], size),
                    g: mean_coordinate(sums_g[j], size),
                    b: mean_coordinate(sums_b[j], size),
                },
            );
        }
        j += 1;
    }
    assert(moved@ =~= updated(features@, assignments@, centroids@));
    moved
}

/// The update step: moves every centroid to the mean of the points assigned
/// to it; a centroid without points stays where it is. Returns `None` exactly
/// when `assignments` is not a valid assignment of the points to the centroids.
pub fn update_centroids(
    features: &Vec<Feature>,
    assignments: &Vec<usize>,
    centroids: &Vec<Feature>,
) -> (out: Option<Vec<Feature>>)
    ensures
        out.is_some() == valid_assignments(
            assignments@,
            features@.len(),
            centroids@.len(),
        ),
        out matches Some(moved) ==> moved@ == updated(features@, assignments@, centroids@),
{
    if check_assignments(assignments, features.len(), centroids.len()) {
        Some(move_centroids(features, assignments, centroids))
    } else {
        None
    }
}

/// The outcome of a clustering run.
#[derive(Debug, PartialEq, Eq)]
pub struct Clustering {
    /// The final centroid of every cluster, by cluster index.
    pub centroids: Vec<Feature>,
    /// For every point, in input order, the index of its cluster.
    pub assignments: Vec<usize>,
    /// Whether the assignment stopped changing before the iteration cap.
    pub converged: bool,
}

/// The mathematical content of a `Clustering`.
pub struct ClusteringView {
    pub centroids: Seq<Feature>,
    pub assignments: Seq<usize>,
    pub converged: bool,
}

impl View for Clustering {
    type V = ClusteringView;

    open spec fn view(&self) -> ClusteringView {
        ClusteringView {
            centroids: self.centroids@,
            assignments: self.assignments@,
            converged: self.converged,
        }
    }
}

/// Lloyd's iteration from centroids and the assignment to them, for at most
/// `steps` update steps. Each step moves the centroids and reassigns the
/// points; the run has converged when a step leaves the assignment unchanged.
pub open spec fn lloyd(
    features: Seq<Feature>,
    centroids: Seq<Feature>,
    assignments: Seq<usize>,
    steps: nat,
) -> ClusteringView
    decreases steps,
{
    if steps == 0 {
        ClusteringView { centroids, assignments, converged: false }
    } else {
        let moved = updated(features, assignments, centroids);
        let reassigned = assignments_for(features, moved);
        if reassigned == assignments {
            ClusteringView { centroids: moved, assignments: reassigned, converged: true }
        } else {
            lloyd(features, moved, reassigned, (steps - 1) as nat)
        }
    }
}

/// Every seed is the index of a point.
pub open spec fn valid_seeds(seeds: Seq<usize>, points: nat) -> bool {
    forall|j: int| 0 <= j < seeds.len() ==> #[trigger] seeds[j] < points
}

/// The initial centroids: the points that the seeds name.
pub open spec fn seeded(features: Seq<Feature>, seeds: Seq<usize>) -> Seq<Feature> {
    Seq::new(seeds.len(), |j: int| features[seeds[j] as int])
}

/// The result of clustering `features` into as many clusters as there are
/// seeds, starting from the seeded points, with at most `max_iterations`
/// update steps.
pub open spec fn clustered(
    features: Seq<Feature>,
    seeds: Seq<usize>,
    max_iterations: nat,
) -> ClusteringView {
    let initial = seeded(features, seeds);
    lloyd(features, initial, assignments_for(features, initial), max_iterations)
}

/// Why `k` clusters cannot be formed from `points` points in at most
/// `max_iterations` steps, if they cannot: no cluster or no step is an invalid
/// parameter, and more clusters than points is an invalid cluster count.
pub open spec fn cluster_error(points: nat, k: nat, max_iterations: nat) -> Option<Error> {
    if k == 0 || max_iterations == 0 {
        Some(Error::InvalidParameter)
    } else if k > points {
        Some(Error::InvalidClusterCount)
    } else {
        None
    }
}

/// Whether two assignment vectors are equal.
fn same_assignments(a: &Vec<usize>, b: &Vec<usize>) -> (same: bool)
    ensures
        same == (a@ == b@),
{
    if a.len() != b.len() {
        return false;
    }
    let mut i: usize = 0;
    while i < a.len()
        invariant
            i <= a.len(),
            a.len() == b.len(),
            forall|m: int| 0 <= m < i ==> a[m] == b[m],
        decreases a.len() - i,
    {
        if a[i] != b[i] {
            return false;
        }
        i += 1;
    }
    assert(a@ =~= b@);
    true
}

/// Checks that every seed names a point.
fn check_seeds(seeds: &Vec<usize>, points: usize) -> (ok: bool)
    ensures
        ok == valid_seeds(seeds@, points as nat),
{
    let mut j: usize = 0;
    while j < seeds.len()
        invariant
            j <= seeds.len(),
            forall|m: int| 0 <= m < j ==> #[trigger] seeds[m] < points,
        decreases seeds.len() - j,
    {
        if seeds[j] >= points {
            return false;
        }
        j += 1;
    }
    true
}

/// Copies the seeded points as the initial centroids.
fn seed_centroids(features: &Vec<Feature>, seeds: &Vec<usize>) -> (centroids: Vec<Feature>)
    requires
        valid_seeds(seeds@, features@.len()),
    ensures
        centroids@ == seeded(features@, seeds@),
{
    let mut centroids: Vec<Feature> = Vec::new();
    let mut j: usize = 0;
    while j < seeds.len()
        invariant
            j <= seeds.len(),
            valid_seeds(seeds@, features@.len()),
            centroids.len() == j,
            forall|m: int| 0 <= m < j ==> #[trigger] centroids[m] == features@[seeds@[m] as int],
        decreases seeds.len() - j,
    {
        centroids.push(features[seeds[j]]);
        j += 1;
    }
    assert(centroids@ =~= seeded(features@, seeds@));
    centroids
}

/// Runs Lloyd's iteration from the initial centroids until the assignment
/// stops changing or the steps are used up.
fn iterate(features: &Vec<Feature>, initial: Vec<Feature>, max_iterations: usize) -> (out:
    Clustering)
    requires
        initial.len() > 0,
    ensures
        out@ == lloyd(
            features@,
            initial@,
            assignments_for(features@, initial@),
            max_iterations as nat,
        ),
{
    let ghost target = lloyd(
        features@,
        initial@,
        assignments_for(features@, initial@),
        max_iterations as nat,
    );
    let mut centroids = initial;
    let mut assignments = assign_points(features, &centroids);
    let mut remaining = max_iterations;
    let mut converged = false;
    while remaining > 0 && !converged
        invariant
            centroids.len() > 0,
            assignments@ == assignments_for(features@, centroids@),
            !converged ==> target == lloyd(
                features@,
                centroids@,
                assignments@,
                remaining as nat,
            ),
            converged ==> target == (ClusteringView {
                centroids: centroids@,
                assignments: assignments@,
                converged: true,
            }),
        decreases remaining, if converged { 0int } else { 1int },
    {
        proof {
            lemma_assignments_for(features@, centroids@);
        }
        let moved = move_centroids(features, &assignments, &centroids);
        let reassigned = assign_points(features, &moved);
        if same_assignments(&reassigned, &assignments) {
            converged = true;
        } else {
            remaining -= 1;
        }
        centroids = moved;
        assignments = reassigned;
    }
    Clustering { centroids, assignments, converged }
}

/// Clusters `features` into `seeds.len()` clusters, starting from the points
/// that `seeds` names, with at most `max_iterations` update steps.
///
/// Fails with `InvalidParameter` when there is no seed or no step is allowed,
/// with `InvalidClusterCount` when there are more seeds than points, and with
/// `InvalidParameter` when a seed names no point. Otherwise the result is
/// `clustered(features, seeds, max_iterations)`: it has one centroid per
/// seed, assigns every point to its nearest centroid, is a fixed point of the
/// assignment and update steps where it converged, and with a single seed is
/// the mean of all points.
pub fn kmeans_from_seeds(
    features: &Vec<Feature>,
    seeds: &Vec<usize>,
    max_iterations: usize,
) -> (out: Result<Clustering, Error>)
    ensures
        match out {
            Ok(c) => {
                &&& cluster_error(features@.len(), seeds@.len(), max_iterations as nat).is_none()
                &&& valid_seeds(seeds@, features@.len())
                &&& c@ == clustered(features@, seeds@, max_iterations as nat)
                &&& settled(features@, c@, seeds@.len())
            },
            Err(e) => match cluster_error(features@.len(), seeds@.len(), max_iterations as nat) {
                Some(reason) => e == reason,
                None => e == Error::InvalidParameter && !valid_seeds(seeds@, features@.len()),
            },
        },
{
    if seeds.len() == 0 || max_iterations == 0 {
        return Err(Error::InvalidParameter);
    }
    if seeds.len() > features.len() {
        return Err(Error::InvalidClusterCount);
    }
    if !check_seeds(seeds, features.len()) {
        return Err(Error::InvalidParameter);
    }
    let initial = seed_centroids(features, seeds);
    let out = iterate(features, initial, max_iterations);
    proof {
        lemma_clustered_is_settled(features@, seeds@, max_iterations as nat);
    }
    Ok(out)
}

/// Draws an index from the thread-local generator of the `rand` crate, by
/// `rand::Rng::gen_range` on the range `0..bound`. Assumed of it: the index
/// lies in that range. The range must not be empty, for which `gen_range`
/// panics.
#[verifier::external_body]
fn random_index(bound: usize) -> (i: usize)
    requires
        bound > 0,
    ensures
        i < bound,
{
    rand::thread_rng().gen_range(0..bound)
}

/// Draws `k` indices of points at random, with replacement.
fn draw_seeds(k: usize, points: usize) -> (seeds: Vec<usize>)
    requires
        points > 0,
    ensures
        seeds.len() == k,
        valid_seeds(seeds@, points as nat),
{
    let mut seeds: Vec<usize> = Vec::new();
    let mut j: usize = 0;
    while j < k
        invariant
            j <= k,
            points > 0,
            seeds.len() == j,
            valid_seeds(seeds@, points as nat),
        decreases k - j,
    {
        seeds.push(random_index(points));
        j += 1;
    }
    seeds
}

/// Clusters `features` into `k` clusters with at most `max_iterations` update
/// steps, starting from `k` points drawn at random, with replacement.
///
/// Fails with `InvalidParameter` when `k` or `max_iterations` is zero and with
/// `InvalidClusterCount` when `k` exceeds the number of points. Otherwise the
/// result is that of `kmeans_from_seeds` for some `k` valid seeds; whichever
/// they are, it has `k` centroids, assigns every point to its nearest
/// centroid, is a fixed point of the assignment and update steps where it
/// converged, and for `k` of one is the mean of all points.
pub fn kmeans(features: &Vec<Feature>, k: usize, max_iterations: usize) -> (out: Result<
    Clustering,
    Error,
>)
    ensures
        match out {
            Ok(c) => {
                &&& cluster_error(features@.len(), k as nat, max_iterations as nat).is_none()
                &&& exists|seeds: Seq<usize>|
                    {
                        &&& seeds.len() == k
                        &&& valid_seeds(seeds, features@.len())
                        &&& c@ == #[trigger] clustered(features@, seeds, max_iterations as nat)
                    }
                &&& settled(features@, c@, k as nat)
            },
            Err(e) => cluster_error(features@.len(), k as nat, max_iterations as nat) == Some(e),
        },
{
    if k == 0 || max_iterations == 0 {
        return Err(Error::InvalidParameter);
    }
    if k > features.len() {
        return Err(Error::InvalidClusterCount);
    }
    let seeds = draw_seeds(k, features.len());
    let initial = seed_centroids(features, &seeds);
    let out = iterate(features, initial, max_iterations);
    assert(out@ == clustered(features@, seeds@, max_iterations as nat));
    proof {
        lemma_clustered_is_settled(features@, seeds@, max_iterations as nat);
    }
    Ok(out)
}

/// Whatever the number of steps, Lloyd's iteration keeps the number of
/// centroids and returns each point assigned to its nearest returned centroid.
pub proof fn lemma_lloyd_coherent(
    features: Seq<Feature>,
    centroids: Seq<Feature>,
    assignments: Seq<usize>,
    steps: nat,
)
    requires
        0 < centroids.len() <= usize::MAX,
        assignments == assignments_for(features, centroids),
    ensures
        lloyd(features, centroids, assignments, steps).centroids.len() == centroids.len(),
        lloyd(features, centroids, assignments, steps).assignments == assignments_for(
            features,
            lloyd(features, centroids, assignments, steps).centroids,
        ),
        valid_assignments(
            lloyd(features, centroids, assignments, steps).assignments,
            features.len(),
            centroids.len(),
        ),
    decreases steps,
{
    lemma_assignments_for(features, centroids);
    if steps > 0 {
        let moved = updated(features, assignments, centroids);
        let reassigned = assignments_for(features, moved);
        lemma_assignments_for(features, moved);
        if reassigned != assignments {
            lemma_lloyd_coherent(features, moved, reassigned, (steps - 1) as nat);
        }
    }
}

/// A converged run is a fixed point of the assignment and update pair: with
/// the returned centroids the assignment step returns the returned
/// assignment, and with that assignment the update step returns the returned
/// centroids.
pub proof fn lemma_converged_is_stable(
    features: Seq<Feature>,
    centroids: Seq<Feature>,
    assignments: Seq<usize>,
    steps: nat,
)
    ensures
        lloyd(features, centroids, assignments, steps).converged ==> {
            let run = lloyd(features, centroids, assignments, steps);
            &&& assignments_for(features, run.centroids) == run.assignments
            &&& updated(features, run.assignments, run.centroids) == run.centroids
        },
    decreases steps,
{
    if steps > 0 {
        let moved = updated(features, assignments, centroids);
        let reassigned = assignments_for(features, moved);
        if reassigned == assignments {
            assert(updated(features, reassigned, moved) =~= moved);
        } else {
            lemma_converged_is_stable(features, moved, reassigned, (steps - 1) as nat);
        }
    }
}

/// A converged clustering is stable: running the assignment step and the
/// update step once more on its centroids changes neither the assignment nor
/// the centroids.
pub proof fn lemma_clustering_is_stable(
    features: Seq<Feature>,
    seeds: Seq<usize>,
    max_iterations: nat,
)
    ensures
        clustered(features, seeds, max_iterations).converged ==> {
            let run = clustered(features, seeds, max_iterations);
            &&& assignments_for(features, run.centroids) == run.assignments
            &&& updated(features, run.assignments, run.centroids) == run.centroids
        },
{
    let initial = seeded(features, seeds);
    lemma_converged_is_stable(
        features,
        initial,
        assignments_for(features, initial),
        max_iterations,
    );
}

/// The sum of coordinate `c` over the first `n` points.
pub open spec fn coordinate_sum(features: Seq<Feature>, c: int, n: nat) -> nat
    decreases n,
{
    if n == 0 {
        0
    } else {
        coordinate_sum(features, c, (n - 1) as nat) + coordinate(features[n - 1], c)
    }
}

/// The mean of all points, coordinate by coordinate, truncated to the
/// fixed-point grid.
pub open spec fn mean_of(features: Seq<Feature>) -> Feature {
    Feature {
        r: (coordinate_sum(features, 0, features.len()) / features.len()) as u32,
        g: (coordinate_sum(features, 1, features.len()) / features.len()) as u32,
        b: (coordinate_sum(features, 2, features.len()) / features.len()) as u32,
    }
}

/// Where every point is in cluster 0, that cluster's size and sums are those
/// of all points.
proof fn lemma_one_cluster_holds_all(
    features: Seq<Feature>,
    assignments: Seq<usize>,
    c: int,
    n: nat,
)
    requires
        n <= assignments.len(),
        forall|i: int| 0 <= i < n ==> #[trigger] assignments[i] == 0,
    ensures
        cluster_size(assignments, 0, n) == n,
        cluster_sum(features, assignments, 0, c, n) == coordinate_sum(features, c, n),
    decreases n,
{
    if n > 0 {
        lemma_one_cluster_holds_all(features, assignments, c, (n - 1) as nat);
    }
}

/// With a single cluster, allowed at least one step, clustering converges to
/// one centroid, the mean of all points, and assigns every point to cluster 0,
/// whichever point seeds it.
pub proof fn lemma_single_cluster(features: Seq<Feature>, seeds: Seq<usize>, max_iterations: nat)
    requires
        seeds.len() == 1,
        valid_seeds(seeds, features.len()),
        max_iterations >= 1,
    ensures
        clustered(features, seeds, max_iterations).centroids == seq![mean_of(features)],
        clustered(features, seeds, max_iterations).assignments == Seq::new(
            features.len(),
            |i: int| 0usize,
        ),
        clustered(features, seeds, max_iterations).converged,
{
    let n = features.len();
    let zeros = Seq::new(n, |i: int| 0usize);
    let initial = seeded(features, seeds);
    let first = assignments_for(features, initial);
    assert(first =~= zeros);
    let moved = updated(features, first, initial);
    lemma_one_cluster_holds_all(features, first, 0, n);
    lemma_one_cluster_holds_all(features, first, 1, n);
    lemma_one_cluster_holds_all(features, first, 2, n);
    assert(seeds[0] < n);
    assert(moved =~= seq![mean_of(features)]);
    assert(assignments_for(features, moved) =~= zeros);
}

/// What holds of every clustering of `features` into `k` clusters, whatever
/// the seeds: there are `k` centroids; every point is assigned to its nearest
/// centroid; a converged run is a fixed point of the assignment and update
/// steps; and a single cluster has converged to the mean of all points.
pub open spec fn settled(features: Seq<Feature>, run: ClusteringView, k: nat) -> bool {
    &&& run.centroids.len() == k
    &&& run.assignments == assignments_for(features, run.centroids)
    &&& valid_assignments(run.assignments, features.len(), k)
    &&& run.converged ==> updated(features, run.assignments, run.centroids) == run.centroids
    &&& k == 1 ==> {
        &&& run.converged
        &&& run.centroids == seq![mean_of(features)]
        &&& run.assignments == Seq::new(features.len(), |i: int| 0usize)
    }
}

/// Every clustering from valid seeds, allowed at least one step, is settled.
pub proof fn lemma_clustered_is_settled(
    features: Seq<Feature>,
    seeds: Seq<usize>,
    max_iterations: nat,
)
    requires
        0 < seeds.len() <= usize::MAX,
        valid_seeds(seeds, features.len()),
        max_iterations >= 1,
    ensures
        settled(features, clustered(features, seeds, max_iterations), seeds.len()),
{
    let initial = seeded(features, seeds);
    lemma_lloyd_coherent(features, initial, assignments_for(features, initial), max_iterations);
    lemma_clustering_is_stable(features, seeds, max_iterations);
    if seeds.len() == 1 {
        lemma_single_cluster(features, seeds, max_iterations);
    }
}

} // verus!

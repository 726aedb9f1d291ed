use find_similar::error::Error;
use find_similar::post::{
    do_find_similar_posts_native_parallel, find_similar_posts_native,
    find_similar_posts_native_async, find_similar_posts_native_parallel, get_weights, score_post,
    PostData,
};
use find_similar::post_store::{AsyncFindSimilarPosts, PostStore};

fn source() -> PostData {
    PostData {
        title: "Deno.kill not working on windows".to_string(),
        content: r#"
Version: Deno 2.3.3
OS: Windows 11

Sending a SIGINT OS signal on windows like: Deno.kill(Deno.pid, 'SIGINT');
Results in: TypeError: Windows only supports ctrl-c (SIGINT) and ctrl-break (SIGBREAK), but got SIGINT
            "#
        .to_string(),
    }
}

fn candidates() -> Vec<PostData> {
    vec![
        PostData {
            title: "Deno.kill on windows".to_string(),
            content: r#"
Version: Deno 2.3.3
OS: Windows 11

Sending a SIGINT OS signal on windows like: Deno.kill(Deno.pid, 'SIGINT');
Results in: TypeError: Windows only supports ctrl-c (SIGINT) and ctrl-break (SIGBREAK), but got SIGINT

Same goes for SIGBREAK

Registering event listeners with: Deno.addSignalListener('SIGINT', doSomething); Works correctly
            "#
            .to_string(),
        },
        PostData {
            title: "denojs on termux like nodejs".to_string(),
            content: r#"
We want a smooth download for Deno.js like Node.js, Python, etc., instead of downloading extra
libraries on Termux. We seek a streamlined download process for Deno.js similar to that of Node.js
and Python, rather than having to download additional libraries on Termux.
"#
            .to_string(),
        },
    ]
}

#[test]
fn test_find_similar_posts_native() {
    let found = find_similar_posts_native(source(), candidates(), 1).unwrap();
    let matches = found.matches;
    assert_eq!(matches.len(), 1);
    assert_eq!(matches[0].target.title, "Deno.kill on windows");
}

#[test]
fn test_find_similar_posts_native_parallel() {
    let found = find_similar_posts_native_parallel(source(), candidates(), 1).unwrap();
    let matches = found.matches;
    assert_eq!(matches.len(), 1);
    assert_eq!(matches[0].target.title, "Deno.kill on windows");
}

fn post(title: &str, content: &str) -> PostData {
    PostData { title: title.to_string(), content: content.to_string() }
}

#[test]
fn post_match_has_its_exact_score() {
    let found = find_similar_posts_native(source(), candidates(), 5).unwrap();
    assert_eq!(found.matches.len(), 1);
    assert_eq!(found.matches[0].score, 647_287_893);
    assert!(found.process_time >= 0);
}

#[test]
fn sequential_and_parallel_search_agree() {
    let many: Vec<PostData> = (0..40)
        .map(|n| post(&format!("Deno.kill on windows {}", n % 7), &"x".repeat(n)))
        .collect();
    let query = post("Deno.kill on windows 3", "xxxx");
    let one = find_similar_posts_native(query.clone(), many.clone(), 10).unwrap().matches;
    let other = find_similar_posts_native_parallel(query.clone(), many.clone(), 10).unwrap().matches;
    let third = do_find_similar_posts_native_parallel(&query, &many, 10).unwrap().matches;
    assert_eq!(one.len(), 10);
    let scores = |matches: &Vec<find_similar::post::Match>| -> Vec<u64> {
        matches.iter().map(|m| m.score).collect()
    };
    assert_eq!(scores(&one), scores(&other));
    assert_eq!(scores(&one), scores(&third));
    for pair in one.windows(2) {
        assert!(pair[0].score >= pair[1].score);
    }
    for m in one.iter() {
        assert!(m.score > 500_000_000 && m.score <= 1_000_000_000);
    }
}

#[test]
fn post_weights_are_the_shares_of_the_characters() {
    let weights = get_weights(&post("abcd", "abcdefgh")).unwrap();
    assert_eq!(weights.title, 4);
    assert_eq!(weights.content, 8);
    assert_eq!(weights.total, 12);
    assert_eq!(get_weights(&post("", "")), Err(Error::InvalidQuery));
    assert!(get_weights(&post("", "x")).is_ok());
}

#[test]
fn post_score_blends_title_and_content() {
    let query = post("abcd", "abcdefgh");
    let weights = get_weights(&query).unwrap();
    // (750_000_000 * 4 + 500_000_000 * 8) / 12, rounded down
    assert_eq!(score_post(&query, &weights, &post("abcx", "abcdwxyz")), 583_333_333);
    assert_eq!(score_post(&query, &weights, &query), 1_000_000_000);
    assert_eq!(score_post(&query, &weights, &post("", "")), 0);
    // An empty title on both sides is fully similar and weighs nothing.
    let untitled = post("", "abcdefgh");
    let weights = get_weights(&untitled).unwrap();
    assert_eq!(score_post(&untitled, &weights, &post("", "abcdwxyz")), 500_000_000);
}

#[test]
fn post_query_without_characters_is_invalid() {
    let blank = post("", "");
    assert_eq!(find_similar_posts_native(blank.clone(), candidates(), 1).err(), Some(Error::InvalidQuery));
    assert_eq!(
        find_similar_posts_native_parallel(blank.clone(), candidates(), 1).err(),
        Some(Error::InvalidQuery)
    );
    assert_eq!(
        find_similar_posts_native(blank.clone(), Vec::new(), 1).err(),
        Some(Error::InvalidQuery)
    );
    let mut task = find_similar_posts_native_async(blank, candidates(), 1);
    assert_eq!(task.compute().err(), Some(Error::InvalidQuery));
}

#[test]
fn three_candidates_two_wanted() {
    let query = post("abcdefghij", "");
    let three = vec![
        post("abcdefgxyz", ""),
        post("abcdefghiX", ""),
        post("abcdefXXXX", ""),
    ];
    // The scores are 0.7, 0.9 and 0.6.
    let found = find_similar_posts_native(query.clone(), three.clone(), 2).unwrap().matches;
    assert_eq!(found.len(), 2);
    assert_eq!(found[0].target.title, "abcdefghiX");
    assert_eq!(found[0].score, 900_000_000);
    assert_eq!(found[1].target.title, "abcdefgxyz");
    assert_eq!(found[1].score, 700_000_000);

    let graded = vec![post("abcdefghiX", ""), post("abcdefXXXX", ""), post("abcXXXXXXX", "")];
    // The scores are 0.9, 0.6 and 0.3.
    for top_n in [2, 3, 10] {
        let found = find_similar_posts_native_parallel(query.clone(), graded.clone(), top_n)
            .unwrap()
            .matches;
        assert_eq!(found.len(), 2);
        assert_eq!(found[0].target.title, "abcdefghiX");
        assert_eq!(found[0].score, 900_000_000);
        assert_eq!(found[1].target.title, "abcdefXXXX");
        assert_eq!(found[1].score, 600_000_000);
    }
}

#[test]
fn prepared_search_runs_when_asked() {
    let mut task = find_similar_posts_native_async(source(), candidates(), 1);
    let found = task.compute().unwrap();
    assert_eq!(found.matches.len(), 1);
    assert_eq!(found.matches[0].target.title, "Deno.kill on windows");
    // The task is unchanged: it gives the same answer again.
    let again = task.compute().unwrap();
    assert_eq!(again.matches[0].score, found.matches[0].score);
}

#[test]
fn post_store_is_replaced_as_a_whole_and_unfiltered() {
    let mut store = PostStore::new();
    assert!(store.posts().is_empty());
    assert!(store.find_similar_posts(source(), 3).unwrap().matches.is_empty());

    store.preload(vec![post("", ""), post("a", "b")]);
    assert_eq!(store.posts().len(), 2);
    assert_eq!(store.posts()[0].title, "");

    store.preload(candidates());
    assert_eq!(store.posts().len(), 2);
    let found = store.find_similar_posts(source(), 3).unwrap();
    assert_eq!(found.matches.len(), 1);
    assert_eq!(found.matches[0].target.title, "Deno.kill on windows");
    assert_eq!(store.find_similar_posts(post("", ""), 3).err(), Some(Error::InvalidQuery));
}

#[test]
fn submitted_post_query_reads_the_store_when_it_runs() {
    let mut store = PostStore::new();
    let mut task = AsyncFindSimilarPosts::new(source(), 1);
    assert!(task.compute(&store).unwrap().matches.is_empty());
    store.preload(candidates());
    let found = task.compute(&store).unwrap();
    assert_eq!(found.matches.len(), 1);
    assert_eq!(found.matches[0].target.title, "Deno.kill on windows");
}

#[test]
fn answer_can_be_copied() {
    let found = find_similar_posts_native(source(), candidates(), 1).unwrap();
    let copy = found.clone();
    assert_eq!(copy.matches.len(), 1);
    assert_eq!(copy.matches[0].target.title, found.matches[0].target.title);
    assert_eq!(copy.matches[0].score, found.matches[0].score);
    assert_eq!(copy.process_time, found.process_time);
}

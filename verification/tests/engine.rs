//! The protocol engines driven directly: tag allocation, in-flight
//! correlation, and pipeline FIFO order.

use tower_rpc::multiplex::{Completion, MultiplexClient};
use tower_rpc::pipeline::{PipelineClient, PipelineServer};

#[test]
fn fresh_tags_are_distinct_while_in_flight() {
    let mut client: MultiplexClient<u64> = MultiplexClient::new();
    let mut tags = Vec::new();
    for i in 0..64u64 {
        tags.push(client.assign_tag(i));
    }
    for i in 0..tags.len() {
        for j in 0..i {
            assert_ne!(tags[i], tags[j]);
        }
    }
    assert_eq!(client.outstanding_tags(), 64);
}

#[test]
fn finished_tags_are_reused() {
    let mut client: MultiplexClient<u64> = MultiplexClient::new();
    let t0 = client.assign_tag(10);
    let t1 = client.assign_tag(11);
    assert_eq!(client.finish_tag(t0), Completion::Deliver(10));
    // The freed slot is handed out again before any new slot.
    let t2 = client.assign_tag(12);
    assert_eq!(t2, t0);
    assert_eq!(client.finish_tag(t1), Completion::Deliver(11));
    assert_eq!(client.finish_tag(t2), Completion::Deliver(12));
    assert!(client.is_idle());
}

#[test]
fn million_round_trips_leave_table_empty() {
    let mut client: MultiplexClient<u64> = MultiplexClient::new();
    for i in 0..1_000_000u64 {
        let tag = client.assign_tag(i);
        assert_eq!(client.finish_tag(tag), Completion::Deliver(i));
    }
    assert_eq!(client.outstanding_tags(), 0);
    assert!(client.is_idle());
}

#[test]
fn out_of_order_completion_matches_by_tag() {
    let mut client: MultiplexClient<u64> = MultiplexClient::new();
    let mut tags = Vec::new();
    for i in 0..5u64 {
        tags.push(client.assign_tag(100 + i));
    }
    // Responses arrive in reverse issue order; each still reaches the
    // handle registered under its own tag.
    for i in (0..5usize).rev() {
        assert_eq!(client.finish_tag(tags[i]), Completion::Deliver(100 + i as u64));
    }
    assert!(client.is_idle());
}

#[test]
fn stray_tag_is_reported_and_changes_nothing() {
    let mut client: MultiplexClient<u64> = MultiplexClient::new();
    let tag = client.assign_tag(7);
    assert_eq!(client.finish_tag(tag + 1000), Completion::Stray);
    assert_eq!(client.outstanding_tags(), 1);
    assert_eq!(client.finish_tag(tag), Completion::Deliver(7));
}

#[test]
fn fail_all_returns_every_pending_handle() {
    let mut client: MultiplexClient<u64> = MultiplexClient::new();
    for i in 0..100u64 {
        client.assign_tag(i);
    }
    let mut handles = client.fail_all();
    assert_eq!(handles.len(), 100);
    handles.sort();
    for i in 0..100u64 {
        assert_eq!(handles[i as usize], i);
    }
    assert!(client.is_idle());
    assert_eq!(client.fail_all().len(), 0);
}

#[test]
fn abandoned_calls_reserve_their_tag_until_the_response_lands() {
    let mut client: MultiplexClient<u64> = MultiplexClient::new();
    let t0 = client.assign_tag(20);
    let t1 = client.assign_tag(21);

    // The caller of the first request walks away.
    assert_eq!(client.cancel_call(t0), Some(20));
    assert!(!client.is_idle());

    // Its tag is not handed out again while the server still owes the
    // response...
    let t2 = client.assign_tag(22);
    assert_ne!(t2, t0);

    // ...and the late response is swallowed without error, freeing the tag.
    assert_eq!(client.finish_tag(t0), Completion::Discard);
    let t3 = client.assign_tag(23);
    assert_eq!(t3, t0);

    assert_eq!(client.finish_tag(t1), Completion::Deliver(21));
    assert_eq!(client.finish_tag(t2), Completion::Deliver(22));
    assert_eq!(client.finish_tag(t3), Completion::Deliver(23));
    assert!(client.is_idle());

    // Cancelling a tag that is not in flight changes nothing.
    assert_eq!(client.cancel_call(t0), None);
    assert!(client.is_idle());
}

#[test]
fn pipeline_client_delivers_in_issue_order() {
    let mut client: PipelineClient<u64> = PipelineClient::new();
    for i in 0..4u64 {
        client.start_call(i);
    }
    assert_eq!(client.outstanding_len(), 4);
    for i in 0..4u64 {
        assert_eq!(client.on_response(), Some(i));
    }
    assert_eq!(client.on_response(), None);
}

#[test]
fn pipeline_echo_in_order() {
    // The first end-to-end exchange: a handler answering `req + 1`, the
    // transport delivering frames instantly. Requests [0,1,2,3] produce
    // [1,2,3,4], in order.
    let mut client: PipelineClient<u64> = PipelineClient::new();
    let mut server: PipelineServer<u64> = PipelineServer::new();
    let requests: Vec<u64> = vec![0, 1, 2, 3];
    let mut responses: Vec<u64> = Vec::new();
    for &req in &requests {
        client.start_call(req);
        let handled = server.accept(req);
        let resp = handled + 1;
        server.emit_response();
        let caller = client.on_response().expect("a call is outstanding");
        assert_eq!(caller, req);
        responses.push(resp);
    }
    assert_eq!(responses, vec![1, 2, 3, 4]);
}

#[test]
fn pipeline_fail_all_keeps_issue_order() {
    let mut client: PipelineClient<u64> = PipelineClient::new();
    for i in 0..10u64 {
        client.start_call(i);
    }
    client.on_response();
    let rest = client.fail_all();
    assert_eq!(rest, vec![1, 2, 3, 4, 5, 6, 7, 8, 9]);
    assert_eq!(client.outstanding_len(), 0);
}

//! The engines under a real executor: in-process transports, timed
//! handlers, and orderly shutdown.

use tower_rpc::multiplex::{Completion, MultiplexClient};
use tower_rpc::pipeline::{PipelineClient, PipelineServer};

fn runtime() -> tokio::runtime::Runtime {
    tokio::runtime::Builder::new_multi_thread()
        .worker_threads(2)
        .enable_all()
        .build()
        .unwrap()
}

#[test]
fn pipeline_echo_over_in_process_transport() {
    let rt = runtime();
    rt.block_on(async {
        let (req_tx, mut req_rx) = tokio::sync::mpsc::unbounded_channel::<u64>();
        let (res_tx, mut res_rx) = tokio::sync::mpsc::unbounded_channel::<u64>();

        let server = tokio::spawn(async move {
            let mut engine: PipelineServer<u64> = PipelineServer::new();
            while let Some(req) = req_rx.recv().await {
                let handled = engine.accept(req);
                let resp = handled + 1;
                engine.emit_response();
                if res_tx.send(resp).is_err() {
                    break;
                }
            }
        });

        let mut client: PipelineClient<tokio::sync::oneshot::Sender<u64>> =
            PipelineClient::new();
        let mut receivers = Vec::new();
        for i in 0..4u64 {
            let (tx, rx) = tokio::sync::oneshot::channel();
            client.start_call(tx);
            req_tx.send(i).unwrap();
            receivers.push(rx);
        }
        drop(req_tx);

        for _ in 0..4 {
            let resp = res_rx.recv().await.unwrap();
            let caller = client.on_response().expect("a call is outstanding");
            caller.send(resp).unwrap();
        }

        let mut responses = Vec::new();
        for rx in receivers {
            responses.push(rx.await.unwrap());
        }
        assert_eq!(responses, vec![1, 2, 3, 4]);
        server.await.unwrap();
    });
}

#[test]
fn multiplex_responses_arrive_in_delay_order() {
    let rt = runtime();
    rt.block_on(async {
        let (req_tx, mut req_rx) = tokio::sync::mpsc::unbounded_channel::<(usize, u64)>();
        let (res_tx, mut res_rx) = tokio::sync::mpsc::unbounded_channel::<(usize, u64)>();

        // The handler sleeps longest for the first request, so completions
        // come back in reverse issue order; the tag is echoed unchanged.
        let server = tokio::spawn(async move {
            while let Some((tag, req)) = req_rx.recv().await {
                let res_tx = res_tx.clone();
                tokio::spawn(async move {
                    let delay_ms = (5 - req) * 150;
                    tokio::time::sleep(std::time::Duration::from_millis(delay_ms)).await;
                    let _ = res_tx.send((tag, req + 1));
                });
            }
        });

        let mut client: MultiplexClient<tokio::sync::oneshot::Sender<u64>> =
            MultiplexClient::new();
        let mut receivers = Vec::new();
        let mut issue_order = Vec::new();
        for i in 0..5u64 {
            let (tx, rx) = tokio::sync::oneshot::channel();
            let tag = client.assign_tag(tx);
            issue_order.push(i);
            req_tx.send((tag, i)).unwrap();
            receivers.push(rx);
        }
        drop(req_tx);

        let mut arrival_order = Vec::new();
        for _ in 0..5 {
            let (tag, resp) = res_rx.recv().await.unwrap();
            arrival_order.push(resp - 1);
            match client.finish_tag(tag) {
                Completion::Deliver(caller) => caller.send(resp).unwrap(),
                _ => panic!("the tag should be in flight"),
            }
        }
        assert!(client.is_idle());
        assert_eq!(arrival_order, vec![4, 3, 2, 1, 0]);

        // Every caller still got its own answer.
        for (i, rx) in receivers.into_iter().enumerate() {
            assert_eq!(rx.await.unwrap(), i as u64 + 1);
        }
        server.await.unwrap();
    });
}

#[test]
fn cancelled_server_fails_every_pending_caller() {
    let rt = runtime();
    rt.block_on(async {
        let mut client: MultiplexClient<tokio::sync::oneshot::Sender<Result<u64, String>>> =
            MultiplexClient::new();
        let mut receivers = Vec::new();
        for i in 0..100u64 {
            let (tx, rx) = tokio::sync::oneshot::channel();
            let tag = client.assign_tag(tx);
            assert_eq!(tag, i as usize);
            receivers.push(rx);
        }

        let token = tokio_util::sync::CancellationToken::new();
        let driver_token = token.clone();
        let driver = tokio::spawn(async move {
            driver_token.cancelled().await;
            let handles = client.fail_all();
            let failed = handles.len();
            for h in handles {
                let _ = h.send(Err(String::from("connection torn down")));
            }
            (failed, client.is_idle())
        });

        token.cancel();
        let (failed, idle) = driver.await.unwrap();
        assert_eq!(failed, 100);
        assert!(idle);
        for rx in receivers {
            let outcome = rx.await.unwrap();
            assert_eq!(outcome, Err(String::from("connection torn down")));
        }
    });
}

use zetax::errors::RpcError;
use zetax::io::{caught_job_result, received_job_result, RayErr};
use zetax::net::{
    check_reuseport_count, packet_send_step, recv_step, RecvResult, RecvStep, SendResult,
    SendStep, SocketSetupError,
};

#[test]
fn error_texts() {
    assert_eq!(RpcError::Deserialization("bad".to_string()).to_string(), "Deserialization error: bad");
    assert_eq!(RpcError::Serialization("x".to_string()).to_string(), "Serialization error: x");
    assert_eq!(RpcError::Application("oops".to_string()).to_string(), "Application error: oops");
    assert_eq!(RpcError::Other(String::new()).to_string(), "Other error: ");
}

#[test]
fn job_outcomes() {
    assert_eq!(caught_job_result::<u32>(Ok(5)), Ok(5));
    assert_eq!(caught_job_result::<u32>(Err(())), Err(RayErr::Panicked));
    assert_eq!(received_job_result::<u32>(Some(Ok(7))), Ok(7));
    assert_eq!(received_job_result::<u32>(Some(Err(RayErr::Panicked))), Err(RayErr::Panicked));
    assert_eq!(received_job_result::<u32>(None), Err(RayErr::Canceled));
}

#[test]
fn reuseport_needs_one_socket() {
    assert_eq!(check_reuseport_count(0), Err(SocketSetupError::NoSockets));
    assert_eq!(check_reuseport_count(3), Ok(3));
}

#[test]
fn batch_send_steps() {
    assert_eq!(packet_send_step(0, SendResult::Sent), SendStep::Next(1));
    assert_eq!(packet_send_step(2, SendResult::WouldBlock), SendStep::Stop(2));
    assert_eq!(packet_send_step(2, SendResult::Failed), SendStep::Fail);
}

#[test]
fn receive_steps() {
    assert_eq!(recv_step(RecvResult::Datagram), RecvStep::Feed);
    assert_eq!(recv_step(RecvResult::WouldBlock), RecvStep::Stop);
    assert_eq!(recv_step(RecvResult::Failed), RecvStep::Fail);
}

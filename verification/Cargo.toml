[package]
name = "qingping_mqtt_interceptor"
version = "0.1.0"
edition = "2021"
publish = false

[dependencies]
anyhow = "*"
env_logger = "*"
envconfig = "*"
etherparse = "0.13"
log = "*"
pcap = "*"
